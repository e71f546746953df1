use active_call::clock::TimeSpan;
use active_call::event::SessionEvent;
use active_call::media::ambiance::{soft_mix, AmbianceError, AmbianceOption, AmbianceProcessor};
use active_call::media::loudness::{LoudnessNormalizer, LoudnessQuery, LoudnessStep};
use active_call::media::mixing::{
    decode_to_pcm, decoded_pcm, mix_tick, mixed_frame, MixPlan, MixingForwardingTrack, PcmStep,
    SendOutcome, StartError, TrackConfig,
};
use active_call::media::processor::{
    convert_to_mono, ChainAction, ChainEvent, ChainProcessor, ChainTable, Effect, ProcessError,
    Processor, ProcessorChain, ProcessorKind, SubscribeProcessor,
};
use active_call::media::stream::{
    MediaStreamBuilder, MuteProcessor, RecorderProcessor, ServeAction,
};
use active_call::media::track::{
    dtmf_event, PacketStep, TrackAction, TrackCommand, TrackEntry, TrackTable,
};
use active_call::media::{AudioFrame, Samples, INTERNAL_SAMPLERATE};
use active_call::option::RecorderOption;

fn bits(x: f32) -> u32 {
    x.to_bits()
}

fn loud_processor() -> AmbianceProcessor {
    AmbianceProcessor {
        samples: vec![8000i16; INTERNAL_SAMPLERATE as usize],
        cursor: 0,
        duck_level: bits(0.5),
        normal_level: bits(1.0),
        enabled: true,
        current_level: bits(1.0),
        transition_speed: bits(1.0),
        resample_phase: 0,
        resample_step: 1 << 16,
    }
}

/// Moves the level as the surroundings do, and processes the frame.
fn process(processor: &mut AmbianceProcessor, frame: &mut AudioFrame) {
    let Some(target) = processor.target_level(frame) else {
        return;
    };
    let target = f32::from_bits(target);
    let mut level = f32::from_bits(processor.current_level);
    let speed = f32::from_bits(processor.transition_speed);
    if (level - target).abs() > 0.001 {
        level = if level < target { (level + speed).min(target) } else { (level - speed).max(target) };
    }
    processor.process_frame(frame, bits(level), (level * 256.0) as i32);
}

fn frame_of(samples: Samples, sample_rate: u32, channels: u16) -> AudioFrame {
    AudioFrame {
        track_id: "server-side-track".to_string(),
        samples,
        timestamp: 0,
        sample_rate,
        channels,
        ..Default::default()
    }
}

fn pcm(frame: &AudioFrame) -> &Vec<i16> {
    match &frame.samples {
        Samples::PCM { samples } => samples,
        other => panic!("expected PCM, got {:?}", other),
    }
}

#[test]
fn empty_frame_becomes_ambiance_pcm() {
    let mut processor = loud_processor();
    let mut frame = frame_of(Samples::Empty, INTERNAL_SAMPLERATE, 1);
    process(&mut processor, &mut frame);
    match frame.samples {
        Samples::PCM { samples } => {
            assert_eq!(samples.len(), 320);
            assert!(
                samples.iter().any(|s| *s != 0),
                "idle frame should carry ambiance"
            );
        }
        other => panic!("expected PCM, got {:?}", other),
    }
}

#[test]
fn pcm_frame_is_mixed() {
    let mut processor = loud_processor();
    let mut frame = frame_of(Samples::PCM { samples: vec![1000; 320] }, INTERNAL_SAMPLERATE, 1);
    process(&mut processor, &mut frame);
    match frame.samples {
        Samples::PCM { samples } => {
            assert!(
                samples.iter().any(|s| *s != 1000),
                "tts frame should mix ambiance"
            );
        }
        other => panic!("expected PCM, got {:?}", other),
    }
}

#[test]
fn mixed_samples_are_exact() {
    let mut processor = loud_processor();
    let mut frame = frame_of(Samples::PCM { samples: vec![1000; 4] }, INTERNAL_SAMPLERATE, 1);
    process(&mut processor, &mut frame);
    // The level under speech is one half.
    assert_eq!(pcm(&frame), &vec![5000, 5000, 5000, 5000]);
    let mut idle = frame_of(Samples::Empty, 8000, 2);
    let mut processor = loud_processor();
    process(&mut processor, &mut idle);
    assert_eq!(pcm(&idle).len(), 320);
    assert_eq!(pcm(&idle)[0], 8000);
    // Two samples of the loop per sample at half its rate.
    assert_eq!(processor.cursor, 320);
}

#[test]
fn playhead_moves_on_between_frames() {
    let make = || {
        let mut p = loud_processor();
        p.samples = (0..1000).map(|i| i as i16).collect();
        p
    };
    let mut once = make();
    let mut twice = make();
    let mut whole = Vec::new();
    for _ in 0..30 {
        whole.push(once.get_ambient_sample_with_rate(11025));
    }
    let mut parts = Vec::new();
    for _ in 0..10 {
        parts.push(twice.get_ambient_sample_with_rate(11025));
    }
    for _ in 0..20 {
        parts.push(twice.get_ambient_sample_with_rate(11025));
    }
    assert_eq!(whole, parts);
    assert_eq!(once.cursor, twice.cursor);
}

#[test]
fn soft_mix_folds_back() {
    assert_eq!(soft_mix(1234, -5000, 0), 1234);
    assert_eq!(soft_mix(0, 1000, 256), 1000);
    assert_eq!(soft_mix(0, -1, 128), -1);
    assert_eq!(soft_mix(32767, 400, 256), 32667);
    assert_eq!(soft_mix(-32768, -400, 256), -32668);
}

#[test]
fn ambiance_needs_a_path() {
    assert!(matches!(
        AmbianceProcessor::new(AmbianceOption::default(), vec![]),
        Err(AmbianceError::PathRequired)
    ));
    assert_eq!(AmbianceError::PathRequired.message(), "Ambiance path required");
    let mut option = AmbianceOption::default();
    option.path = Some("a.wav".to_string());
    assert_eq!(AmbianceProcessor::required_path(&option), Ok("a.wav".to_string()));
    let p = AmbianceProcessor::new(option, vec![1, 2, 3]).ok().unwrap();
    assert_eq!(f32::from_bits(p.normal_level), 0.3);
    assert_eq!(f32::from_bits(p.duck_level), 0.1);
    assert_eq!(f32::from_bits(p.transition_speed), 0.01);
    assert!(p.enabled);
}

#[test]
fn disabled_ambiance_leaves_frames_alone() {
    let mut p = loud_processor();
    p.set_enabled(false);
    let mut frame = frame_of(Samples::Empty, INTERNAL_SAMPLERATE, 1);
    process(&mut p, &mut frame);
    assert_eq!(frame.samples, Samples::Empty);
    p.set_levels(bits(0.2), bits(0.4));
    assert_eq!(f32::from_bits(p.normal_level), 0.2);
    assert_eq!(f32::from_bits(p.duck_level), 0.4);
}

#[test]
fn ambiance_settings_merge() {
    let mut own = AmbianceOption::default();
    own.enabled = Some(false);
    let global = AmbianceOption {
        path: Some("g.wav".to_string()),
        duck_level: Some(1),
        normal_level: None,
        transition_speed: None,
        enabled: Some(true),
    };
    own.merge(&global);
    assert_eq!(own.path.as_deref(), Some("g.wav"));
    assert_eq!(own.duck_level, Some(1));
    assert_eq!(own.enabled, Some(false));
}

#[test]
fn perf_idle_mix_cost() {
    let mut processor = loud_processor();
    let budget_us = 100.0;
    let iterations = 10_000u32;

    let start = std::time::Instant::now();
    for i in 0..iterations {
        let mut frame = frame_of(Samples::Empty, INTERNAL_SAMPLERATE, 1);
        frame.timestamp = i as u64;
        process(&mut processor, &mut frame);
    }
    let per_call_us = start.elapsed().as_micros() as f64 / iterations as f64;
    println!("ambiance idle mix: {:.2} µs per 20ms frame", per_call_us);
    assert!(
        per_call_us < budget_us,
        "idle mix {:.2} µs/frame exceeds {:.0} µs budget",
        per_call_us,
        budget_us
    );
}

#[test]
fn raw_tap_visible_to_clones_taken_before_attach() {
    let mut chains = ChainTable::new();
    let chain = ProcessorChain::new(&mut chains, INTERNAL_SAMPLERATE);
    let worker = chain.clone();
    chain.set_raw_tap(&mut chains, true);

    let mut frame = frame_of(Samples::PCM { samples: vec![100i16; 160] }, 8000, 1);
    frame.track_id = "track".to_string();
    let raw = match worker.process_frame(&chains, &mut frame, ChainEvent::Begin { is_audio: false }) {
        ChainAction::Resample { tap, samples, from, to } => {
            assert_eq!(samples, vec![100i16; 160]);
            assert_eq!((from, to), (8000, INTERNAL_SAMPLERATE));
            tap.expect("raw tap should receive a frame from a pre-attach clone")
        }
        other => panic!("expected a resampling, got {:?}", other),
    };
    assert_eq!(raw.sample_rate, 8000);
    assert_eq!(raw.channels, 1);
    match raw.samples {
        Samples::PCM { samples } => assert_eq!(samples.len(), 160),
        _ => panic!("expected PCM samples on the raw tap"),
    }
    worker.process_frame(&chains, &mut frame, ChainEvent::Resampled { samples: vec![100i16; 320] });
    // The pipeline output is still normalized to the internal rate.
    assert_eq!(frame.sample_rate, INTERNAL_SAMPLERATE);
}

#[test]
fn raw_tap_detach_visible_to_clones() {
    let mut chains = ChainTable::new();
    let chain = ProcessorChain::new(&mut chains, INTERNAL_SAMPLERATE);
    chain.set_raw_tap(&mut chains, true);
    let worker = chain.clone();
    chain.set_raw_tap(&mut chains, false);

    let mut frame = frame_of(Samples::PCM { samples: vec![100i16; 160] }, 8000, 1);
    frame.track_id = "track".to_string();
    match worker.process_frame(&chains, &mut frame, ChainEvent::Begin { is_audio: false }) {
        ChainAction::Resample { tap, .. } => assert!(tap.is_none()),
        other => panic!("expected a resampling, got {:?}", other),
    }
    worker.process_frame(&chains, &mut frame, ChainEvent::Resampled { samples: vec![100i16; 320] });
    assert_eq!(frame.sample_rate, INTERNAL_SAMPLERATE);
}

#[test]
fn chain_decodes_packets_and_keeps_their_source() {
    let mut chains = ChainTable::new();
    let chain = ProcessorChain::new(&mut chains, INTERNAL_SAMPLERATE);
    let mut frame = frame_of(
        Samples::RTP { payload_type: 0, payload: vec![1, 2], sequence_number: 9 },
        8000,
        1,
    );
    assert_eq!(
        chain.process_frame(&chains, &mut frame, ChainEvent::Begin { is_audio: true }),
        ChainAction::Decode
    );
    let action = chain.process_frame(
        &chains,
        &mut frame,
        ChainEvent::Decoded {
            sample_rate: INTERNAL_SAMPLERATE,
            channels: 2,
            samples: vec![1, 3, -1, -4],
        },
    );
    assert_eq!(action, ChainAction::Run { tap: None });
    assert_eq!(pcm(&frame), &vec![2, -2]);
    assert_eq!(frame.channels, 1);
    assert_eq!(frame.src_packet.unwrap().sequence_number, 9);
}

#[test]
fn chain_skips_what_nobody_looks_at() {
    let mut chains = ChainTable::new();
    let mut chain = ProcessorChain::new(&mut chains, INTERNAL_SAMPLERATE);
    chain.force_decode = false;
    let mut frame = frame_of(Samples::Empty, 8000, 1);
    assert_eq!(
        chain.process_frame(&chains, &mut frame, ChainEvent::Begin { is_audio: false }),
        ChainAction::Skip
    );
}

#[test]
fn chain_runs_its_processors_in_order() {
    let mut chains = ChainTable::new();
    let chain = ProcessorChain::new(&mut chains, INTERNAL_SAMPLERATE);
    chain.append_processor(&mut chains, ChainProcessor::External { tag: 1, id: 7 });
    chain.append_processor(&mut chains, ChainProcessor::Subscribe(SubscribeProcessor::new("t".to_string(), 1)));
    chain.insert_processor(&mut chains, ChainProcessor::Recorder(RecorderProcessor::new()));
    let mut frame = frame_of(Samples::PCM { samples: vec![0x0102, -2] }, INTERNAL_SAMPLERATE, 1);
    frame.timestamp = 5;
    let first = chain.run_from(&chains, &mut frame, 0).unwrap();
    assert_eq!(first.pending, Some((1, 7)));
    assert_eq!(first.effects.len(), 1);
    assert!(matches!(first.effects[0], Effect::Record { .. }));
    let rest = chain.resume(&chains, &mut frame, 1, Ok(())).unwrap();
    assert_eq!(rest.pending, None);
    assert_eq!(
        rest.effects,
        vec![Effect::Binary {
            track_id: "t".to_string(),
            timestamp: 5,
            data: vec![1, 0x02, 0x01, 0xfe, 0xff],
        }]
    );
}

#[test]
fn subscriber_is_silent_without_samples() {
    let mut p = SubscribeProcessor::new("t".to_string(), 0);
    let mut frame = frame_of(Samples::Empty, 16000, 1);
    assert_eq!(p.process_frame(&mut frame), Ok(Effect::Silent));
}

#[test]
fn stereo_becomes_mono() {
    let mut samples = vec![10, 20, -3, -4];
    convert_to_mono(&mut samples, 2);
    assert_eq!(samples, vec![15, -3]);
    convert_to_mono(&mut samples, 1);
    assert_eq!(samples, vec![15, -3]);
    assert!(Samples::Empty.is_empty());
    assert!(!Samples::PCM { samples }.is_empty());
}

#[test]
fn muting_is_undone() {
    let mut chains = ChainTable::new();
    let chain = ProcessorChain::new(&mut chains, INTERNAL_SAMPLERATE);
    chain.append_processor(&mut chains, ChainProcessor::External { tag: 1, id: 2 });
    MuteProcessor::mute_track(&chain, &mut chains);
    MuteProcessor::mute_track(&chain, &mut chains);
    assert_eq!(chains.chains[chain.place].processors.len(), 2);
    assert!(chain.has_processor(&chains, ProcessorKind::Mute));
    let mut frame = frame_of(Samples::PCM { samples: vec![5, 6] }, INTERNAL_SAMPLERATE, 1);
    let run = chain.run_from(&chains, &mut frame, 0).unwrap();
    assert_eq!(run.pending, Some((1, 2)));
    assert_eq!(pcm(&frame), &vec![0, 0]);
    MuteProcessor::unmute_track(&chain, &mut chains);
    MuteProcessor::unmute_track(&chain, &mut chains);
    assert_eq!(chains.chains[chain.place].processors, vec![ChainProcessor::External { tag: 1, id: 2 }]);
}

#[test]
fn muting_drops_digits() {
    let mut mute = MuteProcessor {};
    let mut digit = frame_of(
        Samples::RTP { payload_type: 101, payload: vec![1], sequence_number: 1 },
        8000,
        1,
    );
    mute.process_frame(&mut digit).unwrap();
    assert_eq!(digit.samples, Samples::Empty);
    let mut speech = frame_of(
        Samples::RTP { payload_type: 0, payload: vec![1], sequence_number: 1 },
        8000,
        1,
    );
    mute.process_frame(&mut speech).unwrap();
    assert!(matches!(speech.samples, Samples::RTP { .. }));
}

fn entry(chains: &mut ChainTable, id: &str) -> TrackEntry {
    TrackEntry { track_id: id.to_string(), chain: ProcessorChain::new(chains, INTERNAL_SAMPLERATE) }
}

fn table(ids: &[&str]) -> (TrackTable, ChainTable) {
    let mut t = TrackTable::new();
    let mut chains = ChainTable::new();
    for id in ids {
        let track = entry(&mut chains, id);
        t.handle_track_command(&mut chains, TrackCommand::AddTrack { track });
    }
    (t, chains)
}

#[test]
fn tracks_are_added_and_removed() {
    let (mut t, mut chains) = table(&["a", "b", "a"]);
    assert_eq!(t.tracks.len(), 2);
    assert_eq!(
        t.handle_track_command(&mut chains, TrackCommand::RemoveTrack { track_id: "a".to_string(), graceful: true }),
        TrackAction::Stop { track_id: "a".to_string(), graceful: true }
    );
    assert_eq!(
        t.handle_track_command(&mut chains, TrackCommand::RemoveTrack { track_id: "a".to_string(), graceful: true }),
        TrackAction::Done
    );
    assert_eq!(t.tracks.len(), 1);
    assert_eq!(t.tracks[0].track_id, "b");
}

#[test]
fn commands_to_missing_tracks() {
    let (mut t, mut chains) = table(&["a"]);
    let update = |id: &str| TrackCommand::UpdateRemoteDescription {
        track_id: id.to_string(),
        answer: "sdp".to_string(),
        force: true,
    };
    assert_eq!(
        t.handle_track_command(&mut chains, update("a")),
        TrackAction::ApplyAnswer { track_id: "a".to_string(), answer: "sdp".to_string(), force: true }
    );
    assert_eq!(t.handle_track_command(&mut chains, update("z")), TrackAction::AnswerIgnored);
    let handshake = |id: &str| TrackCommand::Handshake {
        track_id: id.to_string(),
        offer: "o".to_string(),
        timeout: None,
    };
    assert_eq!(
        t.handle_track_command(&mut chains, handshake("a")),
        TrackAction::Handshake { track_id: "a".to_string(), offer: "o".to_string(), timeout: None }
    );
    assert_eq!(
        t.handle_track_command(&mut chains, handshake("z")),
        TrackAction::HandshakeFailed { message: "track not found z".to_string() }
    );
}

#[test]
fn muting_reaches_the_named_tracks() {
    let (mut t, mut chains) = table(&["a", "b"]);
    t.handle_track_command(&mut chains, TrackCommand::MuteTrack { track_id: Some("b".to_string()) });
    assert!(!t.tracks[0].chain.has_processor(&chains, ProcessorKind::Mute));
    assert!(t.tracks[1].chain.has_processor(&chains, ProcessorKind::Mute));
    t.handle_track_command(&mut chains, TrackCommand::MuteTrack { track_id: None });
    assert!(t.tracks[0].chain.has_processor(&chains, ProcessorKind::Mute));
    t.handle_track_command(&mut chains, TrackCommand::UnmuteTrack { track_id: None });
    assert!(chains.chains[t.tracks[0].chain.place].processors.is_empty());
    assert!(chains.chains[t.tracks[1].chain.place].processors.is_empty());
}

#[test]
fn packets_reach_the_other_tracks() {
    let (mut t, mut chains) = table(&["a", "callee-track", "queue-hold-track"]);
    let mut packet = frame_of(
        Samples::RTP { payload_type: 101, payload: vec![1], sequence_number: 1 },
        8000,
        1,
    );
    packet.track_id = "queue-hold-track".to_string();
    packet.timestamp = 77;
    assert_eq!(
        t.handle_packet(&packet),
        vec![PacketStep::Send, PacketStep::Skip, PacketStep::Detect]
    );
    assert_eq!(
        dtmf_event(&packet, Some("5".to_string())),
        Some(SessionEvent::Dtmf {
            track_id: "queue-hold-track".to_string(),
            timestamp: 77,
            digit: "5".to_string(),
            refer: None,
        })
    );
    assert_eq!(dtmf_event(&packet, None), None);
    packet.samples = Samples::Empty;
    match t.handle_track_command(&mut chains, TrackCommand::AudioFrame { packet }) {
        TrackAction::Deliver { steps, .. } => {
            assert_eq!(steps, vec![PacketStep::Send, PacketStep::Skip, PacketStep::Skip])
        }
        other => panic!("expected a delivery, got {:?}", other),
    }
}

fn recorder(file: &str) -> RecorderOption {
    RecorderOption {
        recorder_file: file.to_string(),
        samplerate: 16000,
        ptime: 200,
        format: None,
        native_samplerate: None,
    }
}

#[test]
fn streams_are_named_at_random() {
    let a = MediaStreamBuilder::new().build();
    let b = MediaStreamBuilder::new().build();
    assert!(a.id.starts_with("ms:"));
    assert_eq!(a.id.len(), 39);
    assert_ne!(a.id, b.id);
    let c = MediaStreamBuilder::new().with_id("x".to_string()).build();
    assert_eq!(c.id, "x");
}

#[test]
fn stream_is_served_once_and_recorded_once() {
    let mut s = MediaStreamBuilder::new()
        .with_id("x".to_string())
        .with_recorder_config(recorder("a.wav"))
        .build();
    assert_eq!(s.serve(), ServeAction::Serve { recorder: Some(recorder("a.wav")) });
    assert_eq!(s.serve(), ServeAction::AlreadyServing);
    assert_eq!(s.update_recorder_option(recorder("b.wav")), None);
    assert!(s.cleanup());
    assert!(!s.cleanup());
    assert!(s.cancelled);
}

#[test]
fn recorder_waits_for_a_file() {
    let mut s = MediaStreamBuilder::new().build();
    assert_eq!(s.serve(), ServeAction::Serve { recorder: None });
    assert_eq!(s.update_recorder_option(recorder("")), None);
    assert_eq!(s.update_recorder_option(recorder("a.wav")), Some(recorder("a.wav")));
    s.stop(None, None);
    assert!(s.cancelled);
}

#[test]
fn recorded_stream_taps_its_tracks() {
    let s = MediaStreamBuilder::new().with_recorder_config(recorder("a.wav")).build();
    let mut chains = ChainTable::new();
    let track = entry(&mut chains, "t");
    assert_eq!(
        s.update_track(&mut chains, &track),
        TrackCommand::RemoveTrack { track_id: "t".to_string(), graceful: false }
    );
    assert_eq!(
        chains.chains[track.chain.place].processors,
        vec![ChainProcessor::Recorder(RecorderProcessor::new())]
    );
    assert!(!chains.chains[track.chain.place].raw_tap);
    let failed = entry(&mut chains, "t");
    assert!(s.track_started(failed, None, false, 1).is_none());
    let (command, event) = s.track_started(track, Some("p".to_string()), true, 1).unwrap();
    assert!(matches!(command, TrackCommand::AddTrack { .. }));
    assert_eq!(
        event,
        SessionEvent::TrackStart {
            track_id: "t".to_string(),
            timestamp: 1,
            play_id: Some("p".to_string()),
        }
    );
}

#[test]
fn stream_commands_name_their_track() {
    let s = MediaStreamBuilder::new().build();
    let id = "t".to_string();
    let sdp = "v".to_string();
    assert_eq!(
        s.update_remote_description(&id, &sdp),
        TrackCommand::UpdateRemoteDescription { track_id: id.clone(), answer: sdp.clone(), force: false }
    );
    assert_eq!(
        s.update_remote_description_force(&id, &sdp),
        TrackCommand::UpdateRemoteDescription { track_id: id.clone(), answer: sdp.clone(), force: true }
    );
    assert_eq!(
        s.handshake(&id, sdp.clone(), Some(TimeSpan::from_secs(1))),
        TrackCommand::Handshake { track_id: id.clone(), offer: sdp, timeout: Some(TimeSpan::from_secs(1)) }
    );
    assert_eq!(s.mute_track(None), TrackCommand::MuteTrack { track_id: None });
    assert_eq!(
        s.unmute_track(Some(id.clone())),
        TrackCommand::UnmuteTrack { track_id: Some(id) }
    );
}

fn mixer(ptime: TimeSpan) -> MixingForwardingTrack {
    MixingForwardingTrack::new(
        &mut ChainTable::new(),
        "mix".to_string(),
        "session".to_string(),
        3,
        TrackConfig { ptime, samplerate: 16000, channels: 1 },
        9,
        false,
    )
}

#[test]
fn mixer_starts_once() {
    let mut m = mixer(TimeSpan { secs: 0, nanos: 20_000_000 });
    assert!(!m.paused);
    assert_eq!(m.start(), Ok(MixPlan { inputs: 3, ptime_samples: 320 }));
    assert_eq!(m.start(), Err(StartError::AlreadyStarted));
    assert_eq!(
        StartError::AlreadyStarted.message(),
        "mixing forwarding track already started"
    );
    let mut m = mixer(TimeSpan { secs: 1, nanos: 999_999 });
    assert_eq!(m.start(), Ok(MixPlan { inputs: 3, ptime_samples: 16000 }));
}

#[test]
fn mixer_blends_and_drains() {
    let mut buffers = vec![vec![1, 2, 3], vec![10], vec![]];
    assert_eq!(mix_tick(&mut buffers, 2), vec![11, 2]);
    assert_eq!(buffers, vec![vec![3], vec![], vec![]]);
    assert_eq!(mix_tick(&mut buffers, 2), vec![3, 0]);
    let mut loud = vec![vec![30000, -30000], vec![30000, -30000]];
    assert_eq!(mix_tick(&mut loud, 2), vec![32767, -32768]);
}

#[test]
fn two_ticks_are_one_long_tick() {
    let make = || vec![vec![1, 2, 3, 4, 5], vec![7, 7, 7]];
    let mut split = make();
    let mut a = mix_tick(&mut split, 2);
    a.extend(mix_tick(&mut split, 3));
    let mut whole = make();
    assert_eq!(a, mix_tick(&mut whole, 5));
    assert_eq!(split, whole);
}

#[test]
fn mixer_takes_frames_apart() {
    assert_eq!(
        decode_to_pcm(frame_of(Samples::PCM { samples: vec![2, 4] }, 16000, 2), false),
        PcmStep::Ready { samples: vec![3] }
    );
    assert_eq!(
        decode_to_pcm(frame_of(Samples::PCM { samples: vec![2, 4] }, 8000, 2), false),
        PcmStep::Resample { samples: vec![2, 4], from: 8000, to: 16000 }
    );
    let rtp = || Samples::RTP { payload_type: 8, payload: vec![5], sequence_number: 0 };
    assert_eq!(
        decode_to_pcm(frame_of(rtp(), 8000, 1), true),
        PcmStep::Decode { payload_type: 8, payload: vec![5], sample_rate: 16000 }
    );
    assert_eq!(
        decode_to_pcm(frame_of(rtp(), 8000, 1), false),
        PcmStep::Ready { samples: vec![] }
    );
    assert_eq!(
        decode_to_pcm(frame_of(Samples::Empty, 8000, 1), true),
        PcmStep::Ready { samples: vec![] }
    );
    assert_eq!(decoded_pcm(2, vec![1, 1]), vec![1]);
    let frame = mixed_frame("m".to_string(), vec![1], 3);
    assert_eq!((frame.sample_rate, frame.channels, frame.timestamp), (16000, 1, 3));
}

#[test]
fn mixer_forwards_its_session_only() {
    let mut m = mixer(TimeSpan::from_secs(1));
    let mut packet = frame_of(Samples::PCM { samples: vec![1] }, 16000, 1);
    assert!(!m.send_packet(&packet));
    packet.track_id = "session".to_string();
    assert!(m.send_packet(&packet));
    packet.samples = Samples::RTP { payload_type: 96, payload: vec![], sequence_number: 0 };
    assert!(!m.send_packet(&packet));
    packet.samples = Samples::RTP { payload_type: 95, payload: vec![], sequence_number: 0 };
    assert!(m.send_packet(&packet));
    m.paused = true;
    assert!(!m.send_packet(&packet));
    m.paused = false;
    assert!(m.on_sent(SendOutcome::Sent));
    assert!(m.on_sent(SendOutcome::Full));
    assert!(!m.cancelled);
    assert!(!m.on_sent(SendOutcome::Closed));
    assert!(!m.send_packet(&packet));
    let mut other = mixer(TimeSpan::from_secs(1));
    other.stop();
    assert!(other.cancelled);
    let paused = MixingForwardingTrack::new(
        &mut ChainTable::new(),
        "mix".to_string(),
        "session".to_string(),
        1,
        m.config,
        9,
        true,
    );
    assert!(paused.paused);
    assert!(!paused.send_packet(&packet));
}

#[test]
fn loudness_is_asked_on_its_grid() {
    let mut n = LoudnessNormalizer::new(100, 10, 103);
    assert_eq!(n.shortterm_window_samples, 300);
    let loud = |len: usize| frame_of(Samples::PCM { samples: vec![-200; len] }, 100, 1);
    assert_eq!(
        n.process_frame(&loud(4)),
        LoudnessStep::Apply { silent: false, query: LoudnessQuery::Nothing }
    );
    assert_eq!(
        n.process_frame(&loud(6)),
        LoudnessStep::Apply { silent: false, query: LoudnessQuery::Integrated }
    );
    assert_eq!(n.samples_since_query, 0);
    assert_eq!(
        n.process_frame(&loud(290)),
        LoudnessStep::Apply { silent: false, query: LoudnessQuery::ShortTerm }
    );
    assert_eq!(n.samples_fed, 300);
    let quiet = frame_of(Samples::PCM { samples: vec![103, -103] }, 100, 1);
    assert_eq!(
        n.process_frame(&quiet),
        LoudnessStep::Apply { silent: true, query: LoudnessQuery::Nothing }
    );
    assert_eq!(n.process_frame(&frame_of(Samples::Empty, 100, 1)), LoudnessStep::Ignore);
    assert_eq!(
        n.process_frame(&frame_of(Samples::PCM { samples: vec![i16::MIN; 8] }, 100, 1)),
        LoudnessStep::Apply { silent: false, query: LoudnessQuery::ShortTerm }
    );
}

#[test]
fn native_recording_mirrors_the_frames_of_workers_made_before() {
    let mut option = recorder("a.wav");
    option.native_samplerate = Some(true);
    let s = MediaStreamBuilder::new().with_recorder_config(option).build();
    let mut chains = ChainTable::new();
    let track = entry(&mut chains, "t");
    let worker = track.chain.clone();
    let other = ProcessorChain::new(&mut chains, INTERNAL_SAMPLERATE);
    s.update_track(&mut chains, &track);
    // The recorder gets each frame once: from the mirror.
    assert!(chains.chains[track.chain.place].raw_tap);
    assert!(chains.chains[track.chain.place].processors.is_empty());
    let mut frame = frame_of(Samples::PCM { samples: vec![7i16; 160] }, 8000, 1);
    match worker.process_frame(&chains, &mut frame, ChainEvent::Begin { is_audio: false }) {
        ChainAction::Resample { tap: Some(raw), .. } => {
            assert_eq!(raw.sample_rate, 8000);
            assert_eq!(pcm(&raw), &vec![7i16; 160]);
        }
        unexpected => panic!("expected a mirrored frame, got {:?}", unexpected),
    }
    let mut frame = frame_of(Samples::PCM { samples: vec![7i16; 160] }, 8000, 1);
    match other.process_frame(&chains, &mut frame, ChainEvent::Begin { is_audio: false }) {
        ChainAction::Resample { tap, .. } => assert!(tap.is_none()),
        unexpected => panic!("expected a resampling, got {:?}", unexpected),
    }
}

#[test]
fn clones_of_a_chain_meet_the_same_processors() {
    let mut chains = ChainTable::new();
    let chain = ProcessorChain::new(&mut chains, INTERNAL_SAMPLERATE);
    let worker = chain.clone();
    chain.append_processor(&mut chains, ChainProcessor::External { tag: 1, id: 7 });
    assert!(worker.has_processor(&chains, ProcessorKind::External(1)));
    worker.remove_processor(&mut chains, ProcessorKind::External(1));
    assert!(!chain.has_processor(&chains, ProcessorKind::External(1)));
}

#[test]
fn first_error_ends_a_pass() {
    let mut chains = ChainTable::new();
    let chain = ProcessorChain::new(&mut chains, INTERNAL_SAMPLERATE);
    chain.append_processor(&mut chains, ChainProcessor::External { tag: 1, id: 7 });
    chain.append_processor(&mut chains, ChainProcessor::Mute(MuteProcessor {}));
    let mut frame = frame_of(Samples::PCM { samples: vec![5, 6] }, INTERNAL_SAMPLERATE, 1);
    assert_eq!(chain.run_from(&chains, &mut frame, 0).unwrap().pending, Some((0, 7)));
    let failure = || ProcessError { message: "broken".to_string() };
    assert_eq!(chain.resume(&chains, &mut frame, 0, Err(failure())), Err(failure()));
    assert_eq!(pcm(&frame), &vec![5, 6]);
    assert_eq!(chain.resume(&chains, &mut frame, 0, Ok(())).unwrap().pending, None);
    assert_eq!(pcm(&frame), &vec![0, 0]);
}
