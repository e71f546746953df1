use active_call::call::sip::Invitation;
use active_call::call::state::{
    CallProgress, CallRuntime, LegShared, LegTable, PendingCallerTrack,
};
use active_call::call::tracks::{
    codec_named, incoming_ready, option_hangup_headers, strip_ipv6, ActiveCall, CodecType,
    ContactStep, FileTrack, MusicStep, TransportMode, AMBIANCE_TAG, STREAM_TAG,
};
use active_call::call::tracks::RtcTrackConfig;
use active_call::callrecord::ActiveCallType;
use active_call::clock::{TimeSpan, Timestamp};
use active_call::config::{Config, IceServer};
use active_call::event::SessionEvent;
use active_call::maps::StringMap;
use active_call::media::ambiance::AmbianceOption;
use active_call::media::processor::{ChainProcessor, ChainTable, ProcessorChain, SubscribeProcessor};
use active_call::media::track::{TrackCommand, TrackEntry};
use active_call::option::{CallOption, SipOption};
use active_call::sip::{Auth, DialogId, Header, Host, HostWithPort, InviteOption, SipError, Uri};
use std::sync::Arc;

fn call() -> (ActiveCall, LegTable) {
    let mut legs = LegTable::new();
    let leg = LegShared::new(&mut legs, 11, false, CallProgress::default());
    let call = ActiveCall {
        session_id: "s1".to_string(),
        server_side_track_id: "server-side-track".to_string(),
        call_type: ActiveCallType::Sip,
        ssrc: 11,
        codec: CodecType::G722,
        config: Config::default(),
        leg,
        moh: None,
        current_play: None,
    };
    (call, legs)
}

fn with_option(f: impl Fn(&mut CallOption)) -> (ActiveCall, LegTable) {
    let (c, mut legs) = call();
    let mut option = CallOption::default();
    f(&mut option);
    legs.legs[c.leg.place].progress.option = Some(option);
    (c, legs)
}

fn uri(user: Option<&str>) -> Uri {
    Uri {
        scheme: Some("sip".to_string()),
        auth: user.map(|u| Auth { user: u.to_string(), password: None }),
        host_with_port: HostWithPort { host: Host::Domain("h".to_string()), port: None },
        tail: String::new(),
    }
}

fn invite(caller: Option<&str>, contact: Option<&str>) -> InviteOption {
    InviteOption { caller: uri(caller), callee: uri(None), contact: uri(contact), offer: None }
}

fn dialog() -> DialogId {
    DialogId {
        call_id: "s".to_string(),
        local_tag: "l".to_string(),
        remote_tag: "r".to_string(),
    }
}

fn entry(chains: &mut ChainTable, id: &str) -> TrackEntry {
    TrackEntry { track_id: id.to_string(), chain: ProcessorChain::new(chains, 16000) }
}

#[test]
fn codecs_are_read_in_any_case() {
    let (mut c, legs) = call();
    c.config.codecs = Some(
        ["PCMU", "unknown", "Opus", "2833"].iter().map(|s| s.to_string()).collect(),
    );
    let plan = c.create_rtp_track(&legs, "t".to_string(), 5, None);
    assert_eq!(
        plan.config.codecs,
        vec![CodecType::PCMU, CodecType::Opus, CodecType::TelephoneEvent]
    );
    assert_eq!(plan.config.preferred_codec, Some(CodecType::PCMU));
    assert_eq!(plan.track_id, "t");
    assert_eq!(plan.ssrc, 5);
    assert_eq!(codec_named("dtmf"), Some(CodecType::TelephoneEvent));
    assert_eq!(codec_named("g729"), Some(CodecType::G729));
    assert_eq!(codec_named("G729"), None);
}

#[test]
fn unknown_codecs_change_nothing() {
    let (mut c, _) = call();
    c.config.codecs = Some(vec!["x".to_string()]);
    let mut config = RtcTrackConfig::new(TransportMode::Rtp);
    config.codecs = vec![CodecType::G729];
    c.rtc_apply_codecs(&mut config);
    assert_eq!(config.codecs, vec![CodecType::G729]);
    assert_eq!(config.preferred_codec, None);
}

#[test]
fn rtp_track_follows_call_then_node() {
    let (mut c, legs) = call();
    c.config.enable_srtp = Some(true);
    c.config.external_ip = Some("1.2.3.4".to_string());
    c.config.rtp_bind_ip = Some("0.0.0.0".to_string());
    c.config.enable_ice_lite = Some(false);
    let plan = c.create_rtp_track(&legs, "t".to_string(), 5, None);
    assert_eq!(plan.config.mode, TransportMode::Srtp);
    assert_eq!(plan.config.rtp_port_range, Some((12000, 42000)));
    assert_eq!(plan.config.preferred_codec, Some(CodecType::G722));
    assert_eq!(plan.config.external_ip.as_deref(), Some("1.2.3.4"));
    assert_eq!(plan.config.bind_ip.as_deref(), Some("0.0.0.0"));
    assert_eq!(plan.config.enable_latching, Some(true));
    assert_eq!(plan.config.enable_ice_lite, Some(false));
    c.config.rtp_end_port = None;
    let plan = c.create_rtp_track(&legs, "t".to_string(), 5, Some(false));
    assert_eq!(plan.config.mode, TransportMode::Rtp);
    assert_eq!(plan.config.rtp_port_range, None);
    let (mut own, legs) = with_option(|o| o.enable_ice_lite = Some(true));
    own.config.enable_ice_lite = Some(false);
    let plan = own.create_rtp_track(&legs, "t".to_string(), 1, None);
    assert_eq!(plan.config.enable_ice_lite, Some(true));
}

#[test]
fn rejection_is_reported() {
    let (c, _) = call();
    let e = SipError::DialogError { reason: "Busy".to_string(), dialog_id: dialog(), code: 486 };
    assert_eq!(
        c.emit_reject_from_rsip_error("t".to_string(), true, &e, 4),
        Some(SessionEvent::Reject {
            track_id: "t".to_string(),
            timestamp: 4,
            reason: "Busy".to_string(),
            code: Some(486),
            refer: Some(true),
        })
    );
    let e = SipError::Error { message: "x".to_string() };
    assert_eq!(c.emit_reject_from_rsip_error("t".to_string(), true, &e, 4), None);
}

#[test]
fn incoming_dialog_is_found_by_session() {
    let mut invitation = Invitation::new();
    invitation.add_pending(dialog(), 8);
    let (mut c, _) = call();
    assert_eq!(c.try_prepare_incoming_sip_track(&mut invitation), None);
    c.session_id = "s-l-r".to_string();
    assert_eq!(c.try_prepare_incoming_sip_track(&mut invitation), Some((dialog(), 8)));
    assert!(!invitation.has_pending_call(&dialog()));
}

#[test]
fn stream_processors_go_behind() {
    let mut chains = ChainTable::new();
    let (c, _) = call();
    let track = entry(&mut chains, "t");
    track.chain.append_processor(&mut chains, ChainProcessor::External { tag: 9, id: 9 });
    c.setup_track_with_stream(&mut chains, &track, Some(vec![1, 2]));
    assert_eq!(
        chains.chains[track.chain.place].processors,
        vec![
            ChainProcessor::External { tag: 9, id: 9 },
            ChainProcessor::External { tag: STREAM_TAG, id: 1 },
            ChainProcessor::External { tag: STREAM_TAG, id: 2 },
        ]
    );
    let bare = entry(&mut chains, "t");
    c.setup_track_with_stream(&mut chains, &bare, None);
    assert!(chains.chains[bare.chain.place].processors.is_empty());
}

#[test]
fn server_track_gets_sound_and_copy() {
    let mut chains = ChainTable::new();
    let (mut c, legs) = with_option(|o| o.subscribe = Some(true));
    let server = entry(&mut chains, "server-side-track");
    c.update_track_wrapper(&legs, &mut chains, &server, Some("play".to_string()), Some(3));
    assert_eq!(
        chains.chains[server.chain.place].processors,
        vec![
            ChainProcessor::External { tag: AMBIANCE_TAG, id: 3 },
            ChainProcessor::Subscribe(SubscribeProcessor::new("server-side-track".to_string(), 0)),
        ]
    );
    assert_eq!(c.current_play.as_deref(), Some("play"));
    let other = entry(&mut chains, "s1");
    c.update_track_wrapper(&legs, &mut chains, &other, None, Some(3));
    assert_eq!(
        chains.chains[other.chain.place].processors,
        vec![ChainProcessor::Subscribe(SubscribeProcessor::new("s1".to_string(), 1))]
    );
    assert_eq!(c.current_play, None);
    c.call_type = ActiveCallType::WebSocket;
    let ws = entry(&mut chains, "s1");
    c.update_track_wrapper(&legs, &mut chains, &ws, None, None);
    assert!(chains.chains[ws.chain.place].processors.is_empty());
}

#[test]
fn ambiance_of_call_goes_before_node() {
    let (mut c, legs) = with_option(|o| {
        let mut a = AmbianceOption::default();
        a.path = Some("call.wav".to_string());
        o.ambiance = Some(a);
    });
    let mut global = AmbianceOption::default();
    global.path = Some("node.wav".to_string());
    global.enabled = Some(false);
    c.config.ambiance = Some(global);
    let a = c.ambiance_option(&legs);
    assert_eq!(a.path.as_deref(), Some("call.wav"));
    assert_eq!(a.enabled, Some(false));
    let (bare, legs) = call();
    assert_eq!(bare.ambiance_option(&legs), AmbianceOption::default());
}

#[test]
fn websocket_track_answers_the_call() {
    let (mut c, mut legs) = with_option(|o| o.codec = "g722".to_string());
    assert_eq!(c.create_websocket_track(&mut legs), "g722");
    assert_eq!(legs.legs[c.leg.place].progress.answer.as_deref(), Some(""));
    assert_eq!(legs.legs[c.leg.place].progress.last_status_code, 200);
    assert!(legs.legs[c.leg.place].progress.answer_time.is_some());
    let (mut c, mut legs) = call();
    assert_eq!(c.create_websocket_track_at(&mut legs, Timestamp { secs: 3, nanos: 0 }), "");
    assert_eq!(legs.legs[c.leg.place].progress.answer_time, Some(Timestamp { secs: 3, nanos: 0 }));
}

#[test]
fn webrtc_track_gets_the_offer() {
    let (mut c, legs) = with_option(|o| {
        o.offer = Some("v=0".to_string());
        o.handshake_timeout = Some(4);
        o.enable_ipv6 = Some(true);
    });
    c.config.ice_servers = Some(vec![IceServer {
        urls: vec!["stun:x".to_string()],
        username: None,
        credential: None,
        oauth: false,
    }]);
    let plan = c.create_webrtc_track(&legs);
    assert_eq!(plan.offer, "v=0");
    assert_eq!(plan.timeout, Some(TimeSpan::from_secs(4)));
    assert!(!plan.strip_ipv6);
    assert_eq!(plan.track.config.mode, TransportMode::WebRtc);
    assert_eq!(plan.track.config.ice_servers, c.config.ice_servers);
    assert_eq!(plan.track.ssrc, 11);
    assert_eq!(plan.track.config.preferred_codec, None);
    let (bare, legs) = call();
    let bare = bare.create_webrtc_track(&legs);
    assert_eq!(bare.offer, "");
    assert!(bare.strip_ipv6);
}

#[test]
fn webrtc_handshake_outcomes() {
    let (mut c, mut legs) = call();
    assert_eq!(c.webrtc_answered(&mut legs, Ok("sdp".to_string())), Ok(()));
    assert_eq!(legs.legs[c.leg.place].progress.answer.as_deref(), Some("sdp"));
    assert_eq!(
        c.webrtc_answered(&mut legs, Err("no".to_string())),
        Err("Failed to setup track: no".to_string())
    );
}

#[test]
fn outgoing_call_is_planned() {
    let (c, mut legs) = call();
    let mut option = CallOption::default();
    option.sip = Some(SipOption { enable_srtp: Some(true), hangup_headers: None });
    let mut i = invite(None, None);
    let plan = c.create_outgoing_sip_track(&legs, 6, &"t".to_string(), &mut i, &option);
    assert_eq!(plan.config.mode, TransportMode::Srtp);
    assert_eq!(plan.ssrc, 6);

    let leg = LegShared::new(&mut legs, 6, false, CallProgress::default());
    legs.legs[leg.place].progress.option = Some(CallOption::default());
    ActiveCall::outgoing_offer(&mut legs, &leg, &mut i, "é".to_string());
    assert_eq!(i.offer, Some(vec![0xc3, 0xa9]));
    assert_eq!(legs.legs[leg.place].progress.option.as_ref().unwrap().offer.as_deref(), Some("é"));
    assert!(legs.legs[leg.place].progress.start_time.is_some());
}

#[test]
fn outgoing_contact_is_built_where_needed() {
    let i = invite(Some("caller"), Some("contact"));
    assert_eq!(ActiveCall::outgoing_contact(&i, false, false, "x"), Ok(ContactStep::Keep));
    assert_eq!(
        ActiveCall::outgoing_contact(&i, true, true, "x"),
        Ok(ContactStep::Build { user: Some("contact".to_string()) })
    );
    assert_eq!(
        ActiveCall::outgoing_contact(&invite(Some("caller"), None), true, true, "x"),
        Ok(ContactStep::Build { user: Some("caller".to_string()) })
    );
    assert_eq!(
        ActiveCall::outgoing_contact(&invite(None, None), true, true, "x"),
        Ok(ContactStep::Build { user: None })
    );
    assert_eq!(
        ActiveCall::outgoing_contact(&i, true, false, "sip:b@h"),
        Err(SipError::Error {
            message: "missing local SIP address for callee transport: sip:b@h".to_string(),
        })
    );
}

#[test]
fn music_plays_until_the_answer() {
    let (mut c, _) = call();
    assert_eq!(
        c.outgoing_music_with(Some("m.wav".to_string()), 77),
        MusicStep::Play {
            track: FileTrack {
                track_id: "server-side-track".to_string(),
                play_id: Some("m.wav".to_string()),
                ssrc: 77,
                path: "m.wav".to_string(),
            },
        }
    );
    assert_eq!(c.moh.as_deref(), Some("m.wav"));
    let step = c.outgoing_accepted(true);
    assert!(step.set_up_track);
    assert_eq!(
        step.remove,
        Some(TrackCommand::RemoveTrack {
            track_id: "server-side-track".to_string(),
            graceful: false,
        })
    );
    assert_eq!(c.moh, None);
    assert_eq!(c.outgoing_accepted(false).remove, None);
    assert_eq!(c.outgoing_music(None), MusicStep::SetUpTrack);
    c.current_play = Some("other".to_string());
    assert_eq!(c.outgoing_music(Some("m.wav".to_string())), MusicStep::Wait);
    c.current_play = None;
    assert!(matches!(c.outgoing_music(Some("m.wav".to_string())), MusicStep::Play { .. }));
}

#[test]
fn music_streams_have_numbers_at_random() {
    let (mut c, _) = call();
    let mut seen = Vec::new();
    for _ in 0..4 {
        if let MusicStep::Play { track } = c.outgoing_music(Some("m".to_string())) {
            seen.push(track.ssrc);
        }
    }
    assert!(seen.iter().any(|s| *s != seen[0]));
}

#[test]
fn final_answer_of_an_outgoing_call() {
    let mut legs = LegTable::new();
    let leg = LegShared::new(&mut legs, 6, false, CallProgress::default());
    let id = "t".to_string();
    assert_eq!(
        ActiveCall::outgoing_answer(&mut legs, &leg, &id, dialog(), None),
        Err(SipError::DialogError {
            reason: "No answer received".to_string(),
            dialog_id: dialog(),
            code: 488,
        })
    );
    let (answer, command) =
        ActiveCall::outgoing_answer(&mut legs, &leg, &id, dialog(), Some(b"v=0".to_vec())).unwrap();
    assert_eq!(answer, "v=0");
    assert_eq!(
        command,
        Some(TrackCommand::UpdateRemoteDescription {
            track_id: id.clone(),
            answer: "v=0".to_string(),
            force: false,
        })
    );
    assert_eq!(legs.legs[leg.place].progress.answer.as_deref(), Some("v=0"));
    // The answer is in force by now.
    let (answer, command) =
        ActiveCall::outgoing_answer(&mut legs, &leg, &id, dialog(), Some(vec![])).unwrap();
    assert_eq!(answer, "v=0");
    assert_eq!(command, None);
}

#[test]
fn browsers_are_told_by_their_sdp() {
    assert!(ActiveCall::is_webrtc_sdp("a=ice-ufrag:x\r\na=fingerprint:y"));
    assert!(ActiveCall::is_webrtc_sdp("a=fingerprint:y\r\na=ice-pwd:x"));
    assert!(!ActiveCall::is_webrtc_sdp("a=ice-ufrag:x"));
    assert!(!ActiveCall::is_webrtc_sdp("a=fingerprint:y"));
    assert!(!ActiveCall::is_webrtc_sdp(""));
}

#[test]
fn answer_track_fits_the_offer() {
    let (c, legs) = call();
    let mut option = CallOption::default();
    option.handshake_timeout = Some(2);
    let (plan, timeout) = c.setup_answer_track(&legs, 5, &option, "a=ice-pwd:x\na=fingerprint:y");
    assert_eq!(plan.config.mode, TransportMode::WebRtc);
    assert_eq!(plan.config.enable_latching, Some(true));
    assert_eq!(plan.track_id, "s1");
    assert_eq!(timeout, Some(TimeSpan::from_secs(2)));
    let (plan, _) = c.setup_answer_track(&legs, 5, &option, "v=0");
    assert_eq!(plan.config.mode, TransportMode::Rtp);
    assert!(strip_ipv6(&option));
    option.enable_ipv6 = Some(true);
    assert!(!strip_ipv6(&option));
}

#[test]
fn incoming_call_is_reported() {
    let (c, _) = call();
    let headers = vec![
        Header::Other("X-A".to_string(), "1".to_string()),
        Header::Unread,
        Header::Other("X-B".to_string(), "2".to_string()),
        Header::Other("X-A".to_string(), "3".to_string()),
    ];
    let mut map = StringMap::new();
    map.insert("X-A".to_string(), "3".to_string());
    map.insert("X-B".to_string(), "2".to_string());
    let incoming = |caller: &str, callee: &str| SessionEvent::Incoming {
        track_id: "s1".to_string(),
        timestamp: 2,
        caller: caller.to_string(),
        callee: callee.to_string(),
        sdp: "v=0".to_string(),
        headers: Some(map.clone()),
    };
    assert_eq!(
        c.incoming_event(Some("sip:a@h".to_string()), None, &b"v=0".to_vec(), &headers, 2),
        incoming("sip:a@h", "")
    );
    assert_eq!(c.prepare_incoming_sip_track(&b"v=0".to_vec(), &headers, 2), incoming("", ""));
    let mut named = headers;
    named.push(Header::From("\"Alice\" <sip:alice@example.com>;tag=1".to_string()));
    named.push(Header::To("<sip:bob@example.com:5080>;tag=2".to_string()));
    named.push(Header::From("<sip:carol@example.com>".to_string()));
    assert_eq!(
        c.prepare_incoming_sip_track(&b"v=0".to_vec(), &named, 2),
        incoming("sip:alice@example.com", "sip:bob@example.com:5080")
    );
    // A value that cannot be read names nobody.
    let broken = vec![Header::From("<sip:alice@h".to_string()), Header::To("<".to_string())];
    match c.prepare_incoming_sip_track(&vec![], &broken, 2) {
        SessionEvent::Incoming { caller, callee, headers, .. } => {
            assert_eq!((caller.as_str(), callee.as_str()), ("", ""));
            assert_eq!(headers, None);
        }
        other => panic!("expected an incoming call, got {:?}", other),
    }
}

#[test]
fn incoming_call_waits_to_be_accepted() {
    let mut runtime = CallRuntime::new();
    assert_eq!(
        incoming_ready(&mut runtime, Err("x".to_string()), dialog()),
        Err("error creating track: x".to_string())
    );
    assert!(runtime.ready_to_answer.is_none());
    assert_eq!(incoming_ready(&mut runtime, Ok("sdp".to_string()), dialog()), Ok(()));
    assert_eq!(
        runtime.ready_to_answer,
        Some(("sdp".to_string(), PendingCallerTrack::StartedForEarlyMedia, dialog()))
    );
}

#[test]
fn hangup_headers_of_the_settings() {
    let mut option = CallOption::default();
    assert!(option_hangup_headers(&option).is_none());
    let mut map = StringMap::new();
    map.insert("X-R".to_string(), "1".to_string());
    option.sip = Some(SipOption { enable_srtp: None, hangup_headers: Some(Arc::new(map)) });
    assert_eq!(
        option_hangup_headers(&option),
        Some(vec![Header::Other("X-R".to_string(), "1".to_string())])
    );
}
