use nosebleed::clock::{now_unix_ms, unix_stamp};
use nosebleed::libretro::{RuntimeCommand, RuntimeControl};
use nosebleed::session::{
    clamp_fps_bits, copy_target, exit_text, prepare_session_workspace_at, sanitize_session_id,
    snapshot_locked, with_copies, ActiveRuntime, LaunchConfig, ManagerState, RuntimeExit,
    SessionManager, StartRequest, Status, WorkspaceConfig,
};

fn launch(core: Option<&str>, content: Option<&str>, fps: f32, width: u32, height: u32) -> LaunchConfig {
    LaunchConfig {
        core: core.map(|s| s.to_string()),
        content: content.map(|s| s.to_string()),
        fps_bits: fps.to_bits(),
        width,
        height,
        workspace: WorkspaceConfig::default(),
    }
}

#[test]
fn test_snapshot_locked_no_active_returns_stopped() {
    let state = ManagerState::default();
    let status = snapshot_locked(&state);
    assert!(!status.running, "no active runtime → not running");
    assert_eq!(status.mode, "stopped");
    assert!(status.core.is_none());
    assert!(status.content.is_none());
    assert_eq!(f32::from_bits(status.fps_bits), 0.0);
    assert_eq!(status.width, 0);
    assert_eq!(status.height, 0);
    assert!(status.started_at_unix_ms.is_none());
    assert!(status.session_dir.is_none());
    assert!(status.last_exit.is_none());
}

#[test]
fn test_snapshot_locked_active_mock_mode() {
    let state = ManagerState {
        active: Some(ActiveRuntime {
            launch: launch(None, None, 30.0, 320, 240),
            session_dir: Some("/tmp/session-1".to_string()),
            started_at_unix_ms: 1000,
            control: RuntimeControl::default(),
        }),
        last_exit: Some("crashed".into()),
    };
    let status = snapshot_locked(&state);
    assert!(status.running, "should be running");
    assert_eq!(status.mode, "mock", "no core → mock mode");
    assert!(status.core.is_none());
    assert!(status.content.is_none());
    assert_eq!(f32::from_bits(status.fps_bits), 30.0);
    assert_eq!(status.width, 320);
    assert_eq!(status.height, 240);
    assert_eq!(status.started_at_unix_ms, Some(1000));
    assert_eq!(status.session_dir, Some("/tmp/session-1".to_string()));
    assert_eq!(status.last_exit, Some("crashed".to_string()));
}

#[test]
fn test_snapshot_locked_active_libretro_mode() {
    let state = ManagerState {
        active: Some(ActiveRuntime {
            launch: launch(
                Some("/cores/genesis_libretro.so"),
                Some("/roms/sonic.bin"),
                60.0,
                640,
                480,
            ),
            session_dir: None,
            started_at_unix_ms: 2000,
            control: RuntimeControl::default(),
        }),
        last_exit: None,
    };
    let status = snapshot_locked(&state);
    assert!(status.running, "should be running");
    assert_eq!(status.mode, "libretro");
    assert_eq!(status.core, Some("/cores/genesis_libretro.so".to_string()));
    assert_eq!(status.content, Some("/roms/sonic.bin".to_string()));
    assert_eq!(f32::from_bits(status.fps_bits), 60.0);
}

#[test]
fn test_sanitize_session_id_preserves_alphanumeric() {
    assert_eq!(sanitize_session_id("my-session_42"), "my-session_42");
}

#[test]
fn test_sanitize_session_id_replaces_special_chars() {
    assert_eq!(sanitize_session_id("hello world!"), "hello_world_");
}

#[test]
fn test_sanitize_session_id_empty_fallback() {
    assert_eq!(sanitize_session_id(""), "session");
}

#[test]
fn test_workspace_config_default() {
    let cfg = WorkspaceConfig::default();
    assert!(cfg.root_dir.is_none());
    assert!(cfg.id.is_none());
    assert!(!cfg.copy_core);
    assert!(!cfg.copy_content);
}

#[test]
fn test_now_unix_ms_returns_nonzero() {
    let ts = now_unix_ms();
    assert!(ts > 1_700_000_000_000, "should be a recent unix timestamp in ms");
}

#[test]
fn test_start_from_request_merges_defaults() {
    let request = StartRequest {
        core: None,
        content: None,
        fps_bits: None,
        width: None,
        height: None,
        force_restart: false,
        workspace: None,
    };
    let mut defaults = launch(Some("/cores/test.so"), Some("/roms/test.bin"), 60.0, 640, 480);
    defaults.workspace = WorkspaceConfig {
        root_dir: Some("/sessions".to_string()),
        id: Some("test".into()),
        ..Default::default()
    };
    let merged = SessionManager::new(defaults).start_from_request(request);

    assert_eq!(merged.core, Some("/cores/test.so".to_string()));
    assert_eq!(merged.content, Some("/roms/test.bin".to_string()));
    assert_eq!(f32::from_bits(merged.fps_bits), 60.0);
    assert_eq!(merged.width, 640);
    assert_eq!(merged.height, 480);
    assert_eq!(merged.workspace.root_dir, Some("/sessions".to_string()));
}

#[test]
fn test_start_from_request_overrides_defaults() {
    let defaults = launch(Some("/cores/default.so"), Some("/roms/default.bin"), 60.0, 640, 480);
    let request = StartRequest {
        core: Some("/cores/custom.so".to_string()),
        content: None,
        fps_bits: Some(30.0f32.to_bits()),
        width: Some(1280),
        height: Some(720),
        force_restart: false,
        workspace: None,
    };
    let merged = SessionManager::new(defaults).start_from_request(request);

    assert_eq!(merged.core, Some("/cores/custom.so".to_string()));
    assert_eq!(merged.content, Some("/roms/default.bin".to_string()));
    assert_eq!(f32::from_bits(merged.fps_bits), 30.0);
    assert_eq!(merged.width, 1280);
    assert_eq!(merged.height, 720);
}

#[test]
fn test_manager_state_active_replace() {
    let mut state = ManagerState::default();
    assert!(state.active.is_none());

    state.active = Some(ActiveRuntime {
        launch: launch(None, None, 60.0, 640, 480),
        session_dir: None,
        started_at_unix_ms: 0,
        control: RuntimeControl::default(),
    });
    assert!(state.active.is_some());

    let taken = state.active.take();
    assert!(taken.is_some());
    assert!(state.active.is_none());

    state.last_exit = Some("replaced".to_string());
    assert_eq!(state.last_exit.as_deref(), Some("replaced"));
}

#[test]
fn test_launch_config_fps_min_clamp() {
    let mut base = launch(None, None, 0.5, 640, 480);
    base.fps_bits = clamp_fps_bits(base.fps_bits);
    assert_eq!(f32::from_bits(base.fps_bits), 1.0);
}

#[test]
fn test_launch_config_dimensions_min_clamp() {
    let manager = SessionManager::new(launch(None, None, 60.0, 0, 0));
    let base = manager.start_from_request(StartRequest {
        core: None,
        content: None,
        fps_bits: None,
        width: None,
        height: None,
        force_restart: false,
        workspace: None,
    });
    assert_eq!(base.width, 1);
    assert_eq!(base.height, 1);
}

#[test]
fn test_session_status_default_field_values() {
    let status = Status {
        running: false,
        mode: "stopped".to_string(),
        core: None,
        content: None,
        fps_bits: 0.0f32.to_bits(),
        width: 0,
        height: 0,
        started_at_unix_ms: None,
        session_dir: None,
        last_exit: None,
    };
    assert!(!status.running);
    assert_eq!(status.mode, "stopped");
    assert!(status.core.is_none());
    assert!(status.content.is_none());
    assert_eq!(f32::from_bits(status.fps_bits), 0.0);
    assert_eq!(status.width, 0);
    assert_eq!(status.height, 0);
    assert!(status.started_at_unix_ms.is_none());
    assert!(status.session_dir.is_none());
    assert!(status.last_exit.is_none());
}

#[test]
fn test_session_status_with_last_exit() {
    let status = Status {
        running: false,
        mode: "stopped".to_string(),
        core: None,
        content: None,
        fps_bits: 0.0f32.to_bits(),
        width: 0,
        height: 0,
        started_at_unix_ms: None,
        session_dir: None,
        last_exit: Some("runtime crashed".to_string()),
    };
    assert_eq!(status.last_exit.as_deref(), Some("runtime crashed"));
}

#[test]
fn rates_are_compared_by_their_bits() {
    for fps in [1.0f32, 1.5, 29.97, 60.0, 240.0, f32::INFINITY] {
        assert_eq!(f32::from_bits(clamp_fps_bits(fps.to_bits())), fps.max(1.0));
    }
    for fps in [0.0f32, -5.0, 0.999, -0.0, f32::NEG_INFINITY, f32::NAN] {
        assert_eq!(f32::from_bits(clamp_fps_bits(fps.to_bits())), 1.0);
    }
}

#[test]
fn a_second_start_needs_force() {
    let mut manager = SessionManager::new(launch(None, None, 60.0, 320, 240));
    assert_eq!(manager.start(false), Ok(false));
    let status = manager.started(launch(Some("/c.so"), None, 60.0, 320, 240), None, 5);
    assert!(status.running);
    assert_eq!(status.mode, "libretro");
    let refused = manager.start(false).unwrap_err();
    assert!(refused.contains("already running"), "{refused}");
    assert_eq!(manager.start(true), Ok(true));
}

#[test]
fn what_is_asked_waits_for_the_runtime() {
    let mut manager = SessionManager::new(launch(None, None, 60.0, 320, 240));
    assert_eq!(manager.request_reset().unwrap_err(), "no active runtime to reset");
    assert_eq!(
        manager.request_save_state(1).unwrap_err(),
        "no active runtime to save a state from"
    );
    assert_eq!(
        manager.request_load_state(1).unwrap_err(),
        "no active runtime to load a state into"
    );
    manager.started(launch(None, None, 60.0, 320, 240), None, 5);
    manager.request_save_state(3).unwrap();
    manager.request_reset().unwrap();
    let control = &mut manager.state.active.as_mut().unwrap().control;
    assert_eq!(
        control.take_commands(),
        vec![RuntimeCommand::SaveState { slot: 3 }, RuntimeCommand::Reset]
    );
    assert_eq!(control.take_commands(), vec![]);
}

#[test]
fn an_exit_is_remembered() {
    let mut manager = SessionManager::new(launch(None, None, 60.0, 320, 240));
    manager.started(launch(None, None, 60.0, 320, 240), None, 5);
    assert!(manager.stop());
    assert!(!manager.status().running);
    let failed = RuntimeExit::Failed { why: "boom".to_string() };
    manager.note_exit(&failed);
    assert_eq!(manager.status().last_exit, Some(exit_text(&failed)));
    assert!(SessionManager::shutdown_and_join(Some(&failed)).is_err());
    assert!(SessionManager::shutdown_and_join(Some(&RuntimeExit::Stopped)).is_ok());
    assert!(SessionManager::shutdown_and_join(None).is_ok());
}

#[test]
fn a_workspace_is_planned() {
    let mut config = launch(Some("/c/core.so"), Some("/r/rom.bin"), 60.0, 320, 240);
    assert!(prepare_session_workspace_at(&config, 7).is_none());
    config.workspace.root_dir = Some("/sessions".to_string());
    config.workspace.id = Some("my game".to_string());
    config.workspace.copy_core = true;
    let plan = prepare_session_workspace_at(&config, 7).unwrap();
    assert_eq!(plan.session_dir, "/sessions/my_game-7");
    assert!(plan.copy_core.is_some());
    assert!(plan.copy_content.is_none());
    config.workspace.id = None;
    let stamped = prepare_session_workspace_at(&config, 7).unwrap();
    assert_eq!(stamped.session_dir, "/sessions/session-7");
    config.workspace.id = Some("../up".to_string());
    let inside = prepare_session_workspace_at(&config, 7).unwrap();
    assert_eq!(inside.session_dir, "/sessions/___up-7");
}

#[test]
fn copies_take_the_place_of_what_was_copied() {
    assert_eq!(copy_target("/c/core.so", "/w").unwrap(), "/w/core.so");
    assert_eq!(copy_target("/", "/w").unwrap_err(), "path has no filename: /");
    let config = launch(Some("/c/core.so"), Some("/r/rom.bin"), 60.0, 320, 240);
    let copied = with_copies(config, Some("/w/core.so".to_string()), None);
    assert_eq!(copied.core.as_deref(), Some("/w/core.so"));
    assert_eq!(copied.content.as_deref(), Some("/r/rom.bin"));
}

#[test]
fn a_clock_before_the_epoch_reads_zero() {
    assert_eq!(unix_stamp(None), 0);
    assert_eq!(unix_stamp(Some(0x1_0000_0000_0000_0005)), 5);
}
