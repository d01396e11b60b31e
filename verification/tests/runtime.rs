use nosebleed::audio::{sanitize_sample_rate, AudioBus};
use nosebleed::core_run::{
    is_restorable, state_target, CoreAction, CoreEvent, CoreRun, CoreStage, TeardownStep,
};
use nosebleed::frame::{LatestFrameStore, PixelFormat};
use nosebleed::gstreamer_backend::decode_audio_packet;
use nosebleed::hw_render::{
    api_for, config_attribs, context_attribs, create_step, get_error_str, surface_attribs,
    CreateOutcome, CreateStep, HwRenderContext, Release, EGL_OPENGL_API, EGL_OPENGL_ES_API,
};
use nosebleed::input::{Button, InputHub, InputUpdate};
use nosebleed::libretro::{
    batch_samples, environment_command, input_state_at, is_save_file, parse_core_option_default,
    save_ram_changed, save_snapshot_path, should_preload, state_snapshot_path,
    summarize_save_directory, video_refresh_len, CommandAction, CoreEnvironment, CoreFeatures,
    CoreLoadHints, EnvironmentCommand, EnvironmentReply, EnvironmentRequest, LibretroRunConfig,
    OptionDefinition, RuntimeCommand, SaveFile, RETRO_DEVICE_JOYPAD, SAVE_SYNC_INTERVAL_NS,
};

fn features() -> CoreFeatures {
    CoreFeatures {
        reset: true,
        serialize_size: true,
        serialize: false,
        unserialize: true,
        memory_data: true,
        memory_size: true,
    }
}

fn run(content: Option<&str>) -> CoreRun {
    CoreRun::new(LibretroRunConfig {
        core_path: "/c.so".to_string(),
        content_path: content.map(|s| s.to_string()),
        fallback_fps_bits: 60.0f32.to_bits(),
    })
}

fn started(content: Option<&str>, hints: Option<CoreLoadHints>) -> (CoreRun, CoreAction) {
    let mut core = run(content);
    assert!(matches!(
        core.advance(CoreEvent::LibraryLoaded { outcome: Ok(()) }),
        CoreAction::FindSymbols
    ));
    let found = CoreEvent::SymbolsFound { missing: None, features: features() };
    assert!(matches!(core.advance(found), CoreAction::Start));
    let action = core.advance(CoreEvent::Started { hints });
    (core, action)
}

#[test]
fn a_core_runs_and_stops() {
    let (mut core, action) = started(Some("/r/game.bin"), None);
    assert!(matches!(action, CoreAction::ReadContent));
    assert!(matches!(
        core.advance(CoreEvent::ContentRead { read: true }),
        CoreAction::LoadGame { with_path: true, with_bytes: true }
    ));
    let loaded = CoreEvent::GameLoaded { loaded: true, now: 100, interval: 16 };
    assert!(matches!(core.advance(loaded), CoreAction::TakeTurn));
    let commands = vec![RuntimeCommand::Reset, RuntimeCommand::SaveState { slot: 2 }];
    match core.advance(CoreEvent::Turn { stop: false, commands }) {
        CoreAction::RunFrame { commands } => {
            assert!(matches!(commands[0], CommandAction::Reset));
            match &commands[1] {
                CommandAction::Nothing { why } => assert_eq!(
                    why,
                    "save state requested for slot 2, but core does not expose retro_serialize"
                ),
                _ => panic!("carried out"),
            }
        }
        _ => panic!("no frame"),
    }
    match core.advance(CoreEvent::FrameRun { now: 104 }) {
        CoreAction::Sleep { ns } => assert_eq!(ns, 12),
        _ => panic!("no sleep"),
    }
    assert!(matches!(core.advance(CoreEvent::Woken { now: 116 }), CoreAction::TakeTurn));
    core.advance(CoreEvent::Turn { stop: false, commands: vec![] });
    core.advance(CoreEvent::FrameRun { now: 120 });
    let late = 100 + SAVE_SYNC_INTERVAL_NS;
    assert!(matches!(core.advance(CoreEvent::Woken { now: late }), CoreAction::SyncSave));
    match core.advance(CoreEvent::Turn { stop: true, commands: vec![] }) {
        CoreAction::Finish { steps, verdict } => {
            assert_eq!(
                steps,
                vec![TeardownStep::UnloadGame, TeardownStep::Deinit, TeardownStep::ForgetCallbacks]
            );
            assert!(verdict.is_ok());
        }
        _ => panic!("not finished"),
    }
    assert_eq!(core.stage, CoreStage::Finished);
    assert!(matches!(core.advance(CoreEvent::Woken { now: late }), CoreAction::Nothing));
}

fn failure(action: CoreAction) -> (Vec<TeardownStep>, String) {
    match action {
        CoreAction::Finish { steps, verdict } => (steps, verdict.unwrap_err()),
        _ => panic!("not finished"),
    }
}

#[test]
fn cores_fail_in_their_own_ways() {
    let mut missing = run(None);
    let (steps, why) =
        failure(missing.advance(CoreEvent::LibraryLoaded { outcome: Err("gone".to_string()) }));
    assert_eq!((steps.len(), why.as_str()), (0, "failed to load core library /c.so: gone"));

    let mut hollow = run(None);
    hollow.advance(CoreEvent::LibraryLoaded { outcome: Ok(()) });
    let symbol = Some("missing symbol retro_run".to_string());
    let (_, why) =
        failure(hollow.advance(CoreEvent::SymbolsFound { missing: symbol, features: features() }));
    assert_eq!(why, "missing symbol retro_run");

    let (_, action) = started(Some("a\0b"), None);
    assert_eq!(failure(action).1, "content path contains null byte: a\0b");

    let (mut picky, action) = started(None, None);
    assert!(matches!(action, CoreAction::LoadGame { with_path: false, with_bytes: false }));
    let refused = CoreEvent::GameLoaded { loaded: false, now: 1, interval: 1 };
    let (steps, why) = failure(picky.advance(refused));
    assert_eq!(steps, vec![TeardownStep::Deinit, TeardownStep::ForgetCallbacks]);
    assert_eq!(why, "core failed to load game/content");
}

#[test]
fn a_core_that_wants_the_path_gets_no_bytes() {
    let hints = CoreLoadHints { need_fullpath: true, block_extract: false };
    let (_, action) = started(Some("/r/game.bin"), Some(hints));
    assert!(matches!(action, CoreAction::LoadGame { with_path: true, with_bytes: false }));
    assert!(!should_preload(true, Some(hints)));
    assert!(should_preload(true, None));
    assert!(!should_preload(false, None));
}

#[test]
fn saves_have_their_paths() {
    assert_eq!(save_snapshot_path("/s", "/r/My Game.bin").as_deref(), Some("/s/My Game.srm"));
    assert_eq!(
        state_snapshot_path("/s", "/r/My Game.bin", 3).as_deref(),
        Some("/s/states/My Game/slot-03.state")
    );
    assert_eq!(
        state_snapshot_path("/s", "/r/g.bin", 0).as_deref(),
        Some("/s/states/g/slot-01.state")
    );
    assert_eq!(
        state_snapshot_path("/s", "/r/g.bin", 200).as_deref(),
        Some("/s/states/g/slot-200.state")
    );
    assert_eq!(state_snapshot_path("/s", "/", 1), None);
    assert_eq!(state_target("/s", "/r/g.bin", 1, 0), None);
    assert!(state_target("/s", "/r/g.bin", 1, 9).is_some());
    assert!(is_restorable(Some(&[1])));
    assert!(!is_restorable(Some(&[])));
    assert!(!is_restorable(None));
}

#[test]
fn memory_is_written_only_where_it_changed() {
    assert!(save_ram_changed(Some(&[1, 2]), None));
    assert!(save_ram_changed(Some(&[1, 2]), Some(&[1, 3])));
    assert!(save_ram_changed(Some(&[1, 2]), Some(&[1])));
    assert!(!save_ram_changed(Some(&[1, 2]), Some(&[1, 2])));
    assert!(!save_ram_changed(Some(&[]), None));
    assert!(!save_ram_changed(None, None));
}

#[test]
fn options_are_defined_and_read() {
    assert_eq!(parse_core_option_default("Speed; fast|slow").as_deref(), Some("fast"));
    assert_eq!(parse_core_option_default("Speed"), None);
    let mut environment = CoreEnvironment::new();
    let list = vec![OptionDefinition {
        key: Some("speed".to_string()),
        value: Some("fast".to_string()),
    }];
    let done = environment.answer(EnvironmentRequest::SetCoreOptions { list: Some(list) });
    assert!(matches!(done, EnvironmentReply::Done));
    match environment.answer(EnvironmentRequest::GetVariable { key: Some("speed".to_string()) }) {
        EnvironmentReply::Value { value } => assert_eq!(value, "fast"),
        _ => panic!("no value"),
    }
    let unknown = EnvironmentRequest::GetVariable { key: Some("size".to_string()) };
    assert!(matches!(environment.answer(unknown), EnvironmentReply::Refused));
    let format = EnvironmentRequest::SetPixelFormat { raw: 2 };
    assert!(matches!(environment.answer(format), EnvironmentReply::Done));
    assert_eq!(environment.pixel_format, PixelFormat::Rgb565);
    let wrong = EnvironmentRequest::SetPixelFormat { raw: 9 };
    assert!(matches!(environment.answer(wrong), EnvironmentReply::Refused));
    assert_eq!(environment_command(15), Some(EnvironmentCommand::GetVariable));
    assert_eq!(environment_command(0), None);
}

#[test]
fn save_files_are_listed() {
    assert!(is_save_file("game.srm"));
    assert!(!is_save_file("game.bin"));
    let files = vec![
        SaveFile { name: "b.srm".to_string(), size: 2 },
        SaveFile { name: "a.srm".to_string(), size: 1 },
    ];
    let summary = summarize_save_directory(&files);
    assert!(summary.find("a.srm").unwrap() < summary.find("b.srm").unwrap(), "{summary}");
}

#[test]
fn a_core_reads_the_pad() {
    let mut hub = InputHub::default();
    let mut update = InputUpdate::default();
    update.buttons.insert(Button::A, true);
    hub.apply_update_at(0, 0, "one", &update);
    let id = Button::A.retro_id();
    assert_eq!(input_state_at(Some(&hub), 1, 0, RETRO_DEVICE_JOYPAD, 0, id), 1);
    assert_eq!(input_state_at(Some(&hub), 1, 0, 99, 0, id), 0);
    assert_eq!(input_state_at(None, 1, 0, RETRO_DEVICE_JOYPAD, 0, id), 0);
}

#[test]
fn pictures_and_sound_of_a_core_are_measured() {
    assert_eq!(video_refresh_len(false, false, 4, 3, 16), Some(48));
    assert_eq!(video_refresh_len(true, false, 4, 3, 16), None);
    assert_eq!(batch_samples(10), 20);
}

#[test]
fn each_picture_comes_once() {
    let mut store = LatestFrameStore::default();
    assert!(store.newer_than(None).is_none());
    store.publish(1, 1, 4, PixelFormat::Xrgb8888, 1.0f32.to_bits(), &[1, 2, 3, 4]);
    let first = store.newer_than(None).unwrap().sequence;
    assert!(store.newer_than(Some(first)).is_none());
    store.publish(1, 1, 4, PixelFormat::Xrgb8888, 1.0f32.to_bits(), &[5, 6, 7, 8]);
    let second = store.newer_than(Some(first)).unwrap();
    assert_eq!(second.sequence, first + 1);
    assert_eq!(second.data, vec![5, 6, 7, 8]);
}

#[test]
fn sound_is_sent_in_chunks() {
    let mut bus = AudioBus::new(44_100);
    let samples: Vec<i16> = (0..1_500).collect();
    let packets = bus.push_interleaved_stereo_i16_at(7, &samples);
    assert_eq!(packets.len(), 1);
    let first = decode_audio_packet(&packets[0]).unwrap();
    assert_eq!((first.frame_count, first.sample_rate_hz), (512, 44_100));
    assert_eq!(first.samples, samples[..1_024].to_vec());
    let rest = bus.push_interleaved_stereo_i16_at(8, &samples);
    let second = decode_audio_packet(&rest[0]).unwrap();
    assert_eq!(second.samples[..476].to_vec(), samples[1_024..].to_vec());
    assert_eq!(second.sequence, first.sequence + 1);
    assert_eq!(sanitize_sample_rate(0), 48_000);
}

#[test]
fn a_new_rate_counts_for_the_next_chunk() {
    let mut bus = AudioBus::new(44_100);
    bus.set_sample_rate_hz(32_000);
    let packets = bus.push_interleaved_stereo_i16(&[3i16; 1_024]);
    let packet = decode_audio_packet(&packets[0]).unwrap();
    assert_eq!(packet.sample_rate_hz, 32_000);
    assert_eq!(packet.samples, vec![3i16; 1_024]);
}

#[test]
fn a_context_is_made_step_by_step() {
    match create_step(CreateStep::GbmDevice, true) {
        CreateOutcome::Next { step } => assert_eq!(step, CreateStep::GbmSurface),
        CreateOutcome::Failed { .. } => panic!("failed"),
    }
    match create_step(CreateStep::GbmDevice, false) {
        CreateOutcome::Failed { release, .. } => assert_eq!(release.len(), 0),
        CreateOutcome::Next { .. } => panic!("went on"),
    }
    assert_eq!(api_for(1), EGL_OPENGL_API);
    assert_eq!(api_for(2), EGL_OPENGL_ES_API);
    assert_eq!(get_error_str(0x300c), "EGL error: 0x300C");
}

#[test]
fn a_failed_step_gives_back_what_was_had() {
    match create_step(CreateStep::BindApi, false) {
        CreateOutcome::Failed { release, why } => {
            assert_eq!(release, vec![Release::Display, Release::GbmSurface, Release::GbmDevice]);
            assert_eq!(why, "eglBindAPI failed");
        }
        CreateOutcome::Next { .. } => panic!("went on"),
    }
    match create_step(CreateStep::MakeCurrent, false) {
        CreateOutcome::Failed { release, .. } => assert_eq!(release[0], Release::Context),
        CreateOutcome::Next { .. } => panic!("went on"),
    }
}

#[test]
fn what_a_context_is_asked_to_be() {
    assert_eq!(config_attribs(1)[..4].to_vec(), vec![0x3033, 1, 0x3040, 8]);
    assert_eq!(config_attribs(2)[3], 4);
    assert_eq!(config_attribs(2).len(), 15);
    assert_eq!(context_attribs(4), vec![0x3098, 3, 0x3038]);
    assert_eq!(context_attribs(5), vec![0x3098, 2, 0x3038]);
    assert_eq!(context_attribs(1), vec![0x3038]);
    assert_eq!(surface_attribs(64, 48), vec![0x3057, 64, 0x3056, 48, 0x3038]);
    assert_eq!(HwRenderContext { width: 64, height: 48 }.get_framebuffer(), 0);
}

#[test]
fn many_pushes_make_one_stream() {
    let mut bus = AudioBus::new(48_000);
    let mut came_in: Vec<i16> = Vec::new();
    let mut carried: Vec<i16> = Vec::new();
    let mut numbers: Vec<u64> = Vec::new();
    for (k, len) in [701usize, 3, 1_024, 0, 2_500, 1].into_iter().enumerate() {
        let samples: Vec<i16> = (0..len).map(|i| (i + 7 * k) as i16).collect();
        came_in.extend_from_slice(&samples[..len - len % 2]);
        for packet in bus.push_interleaved_stereo_i16_at(k as u64, &samples) {
            let packet = decode_audio_packet(&packet).unwrap();
            assert_eq!((packet.channels, packet.frame_count), (2, 512));
            numbers.push(packet.sequence);
            carried.extend_from_slice(&packet.samples);
        }
    }
    assert_eq!(numbers, (0..(came_in.len() / 1_024) as u64).collect::<Vec<u64>>());
    assert_eq!(carried, came_in[..carried.len()].to_vec());
    assert_eq!(bus.pending_samples, came_in[carried.len()..].to_vec());
}

#[test]
fn nothing_is_known_of_a_new_core() {
    let core = run(Some("/rom"));
    assert!(!core.features.reset && !core.features.unserialize);
    assert_eq!((core.clock.next_frame, core.clock.next_save_sync, core.interval), (0, 0, 0));
}
