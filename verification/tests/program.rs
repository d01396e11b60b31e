use nosebleed::config::{build_auth_config, load_app_config, CliOptions, FileConfig, SessionConfig};
use nosebleed::media::VideoEnv;
use nosebleed::mock_core::{draw_mock_frame, MockCoreConfig, MockInput};
use nosebleed::paths::{extension_of, join, name_of, parent_of, set_extension, stem_of};
use nosebleed::text::{clip, condense, contains, decimal_text, fold, parse_u32, split, trim, word_list};
use nosebleed::web::{file_head, parse_path, picture_head, served, Served};
use nosebleed::ws::{
    frame_time_ms, goes_on, pause_ns, stream_step, ReadOutcome, StreamAction, StreamEvent,
};

fn cli() -> CliOptions {
    CliOptions {
        config: None,
        listen: None,
        core: None,
        content: None,
        fps_bits: None,
        width: None,
        height: None,
        auth_secret: None,
        require_auth: false,
        reconnect_window_ms: None,
        session_root: None,
        session_id: None,
        session_copy_core: false,
        session_copy_content: false,
        media_backend: None,
        video_codec: None,
        video_encoder: None,
    }
}

fn env() -> VideoEnv {
    VideoEnv {
        codec: None,
        encoder: None,
        bitrate_kbps: None,
        keyframe_interval: None,
        low_latency: None,
    }
}

#[test]
fn nothing_said_is_the_default() {
    let config = load_app_config(cli(), FileConfig::default(), None, &env()).unwrap();
    assert_eq!(config.listen, "0.0.0.0:8080");
    assert_eq!(f32::from_bits(config.launch.fps_bits), 60.0);
    assert_eq!((config.launch.width, config.launch.height), (320, 240));
    assert_eq!(config.reconnect_window_ms, 15_000);
    assert!(!config.require_auth);
    assert!(config.launch.core.is_none());
}

#[test]
fn the_command_line_goes_before_the_file() {
    let mut options = cli();
    options.config = Some("/etc/nosebleed/config.json".to_string());
    options.core = Some("cores/a.so".to_string());
    options.width = Some(100);
    options.session_copy_core = true;
    let file = FileConfig {
        core: Some("b.so".to_string()),
        content: Some("/roms/game.bin".to_string()),
        width: Some(7),
        height: Some(8),
        require_auth: Some(true),
        auth_secret: Some("secret".to_string()),
        session: Some(SessionConfig {
            root_dir: Some("sessions".to_string()),
            id: Some("x".to_string()),
            copy_core: Some(false),
            copy_content: Some(true),
        }),
        ..FileConfig::default()
    };
    let config = load_app_config(options, file, None, &env()).unwrap();
    assert_eq!(config.launch.core.as_deref(), Some("/etc/nosebleed/cores/a.so"));
    assert_eq!(config.launch.content.as_deref(), Some("/roms/game.bin"));
    assert_eq!((config.launch.width, config.launch.height), (100, 8));
    let workspace = config.launch.workspace;
    assert_eq!(workspace.root_dir.as_deref(), Some("/etc/nosebleed/sessions"));
    assert!(workspace.copy_core && workspace.copy_content);
    assert!(config.require_auth);
    assert_eq!(config.auth_secret.as_deref(), Some("secret"));
}

#[test]
fn an_unknown_backend_is_refused() {
    let mut options = cli();
    options.media_backend = Some("Banana".to_string());
    let refused = load_app_config(options, FileConfig::default(), None, &env()).unwrap_err();
    assert_eq!(refused, "unsupported media backend 'banana' (expected gstreamer)");
}

#[test]
fn asking_for_tokens_takes_a_secret() {
    let refused = build_auth_config(true, &None, 5_000).unwrap_err();
    assert_eq!(refused, "--require-auth needs --auth-secret (or NOSEBLEED_AUTH_SECRET)");
    let config = build_auth_config(true, &Some("k\u{e9}y".to_string()), 5).unwrap();
    assert_eq!(config.secret, Some("k\u{e9}y".as_bytes().to_vec()));
    assert_eq!(config.reconnect_window_ns, 1_000_000_000);
    let open = build_auth_config(false, &None, 5_000).unwrap();
    assert_eq!(open.reconnect_window_ns, 5_000_000_000);
    assert!(open.secret.is_none());
}

#[test]
fn paths_are_taken_apart() {
    assert_eq!(parent_of("/a/b.json").as_deref(), Some("/a"));
    assert_eq!(parent_of("/a").as_deref(), Some("/"));
    assert_eq!(parent_of("a").as_deref(), Some(""));
    assert_eq!(parent_of("a//b/").as_deref(), Some("a"));
    assert_eq!(parent_of("/"), None);
    assert_eq!(parent_of(""), None);
    assert_eq!(join("/a", "b"), "/a/b");
    assert_eq!(join("/a", "/b"), "/b");
    assert_eq!(join("", "b"), "b");
    assert_eq!(name_of("/a/b.tar.gz").as_deref(), Some("b.tar.gz"));
    assert_eq!(stem_of("/a/b.tar.gz").as_deref(), Some("b.tar"));
    assert_eq!(extension_of("/a/b.tar.gz").as_deref(), Some("gz"));
    assert_eq!(extension_of(".hidden"), None);
    assert_eq!(set_extension("/a/b.bin", "srm"), "/a/b.srm");
}

#[test]
fn std_takes_paths_apart_in_the_same_way() {
    for path in ["/a/b.c", "a", "", "/", "./x", "a/./b", "a/..", "/.", "x/.y.z/", "..", "a/b//"] {
        let std_path = std::path::Path::new(path);
        let parent = std_path.parent().map(|p| p.to_str().unwrap().to_string());
        let name = std_path.file_name().map(|p| p.to_str().unwrap().to_string());
        let stem = std_path.file_stem().map(|p| p.to_str().unwrap().to_string());
        let extension = std_path.extension().map(|p| p.to_str().unwrap().to_string());
        assert_eq!(parent_of(path), parent, "{path}");
        assert_eq!(name_of(path), name, "{path}");
        assert_eq!(stem_of(path), stem, "{path}");
        assert_eq!(extension_of(path), extension, "{path}");
    }
}

#[test]
fn texts_are_taken_apart() {
    assert_eq!(trim("  a b "), "a b");
    assert_eq!(fold(" GsT\t"), "gst");
    assert_eq!(condense(" a \t b\nc "), "a b c");
    assert_eq!(word_list(" GET  /x HTTP/1.1"), vec!["GET", "/x", "HTTP/1.1"]);
    assert_eq!(clip("hello", 2), "he");
    assert_eq!(decimal_text(0), "0");
    assert_eq!(decimal_text(u64::MAX), "18446744073709551615");
    assert_eq!(parse_u32("4294967295"), Some(u32::MAX));
    assert_eq!(parse_u32("4294967296"), None);
    assert_eq!(parse_u32("+7"), Some(7));
    assert_eq!(parse_u32("-7"), None);
    assert_eq!(split("a..b", '.'), vec!["a", "", "b"]);
    assert!(contains("already running", "ready"));
    assert!(!contains("ready", "already"));
}

#[test]
fn requests_name_what_they_want() {
    assert_eq!(parse_path("GET /frame HTTP/1.1\r\nHost: x\r\n\r\n"), "/frame");
    assert_eq!(parse_path("GET"), "/");
    assert_eq!(parse_path(""), "/");
    assert!(matches!(served("GET /frame HTTP/1.1", "static"), Served::Picture));
    match served("GET / HTTP/1.1", "static") {
        Served::File { path } => assert_eq!(path, "static/index.html"),
        Served::Picture => panic!("not a file"),
    }
    match served("GET //etc/x.js HTTP/1.1", "static") {
        Served::File { path } => assert_eq!(path, "static/etc/x.js"),
        Served::Picture => panic!("not a file"),
    }
}

#[test]
fn answers_have_their_heads() {
    assert_eq!(
        picture_head(Some(12)),
        "HTTP/1.1 200 OK\r\nContent-Type: image/png\r\nContent-Length: 12\r\nCache-Control: no-store\r\n\r\n"
    );
    assert_eq!(picture_head(None), "HTTP/1.1 503 Service Unavailable\r\nContent-Length: 0\r\n\r\n");
    assert_eq!(
        file_head("static/index.html", Some(3)),
        "HTTP/1.1 200 OK\r\nContent-Type: text/html; charset=utf-8\r\nContent-Length: 3\r\n\r\n"
    );
    assert!(file_head("x.js", Some(3)).contains("text/javascript; charset=utf-8"));
    assert!(file_head("x.png", Some(3)).contains("application/octet-stream"));
    assert_eq!(file_head("x", None), "HTTP/1.1 404 Not Found\r\nContent-Length: 0\r\n\r\n");
}

#[test]
fn streams_end_with_their_client() {
    assert_eq!(frame_time_ms(60), 16);
    assert_eq!(frame_time_ms(0), 1000);
    assert_eq!(pause_ns(16, 10), 6);
    assert_eq!(pause_ns(16, 20), 0);
    assert!(!goes_on(ReadOutcome::Close));
    assert!(!goes_on(ReadOutcome::AlreadyClosed));
    assert!(!goes_on(ReadOutcome::ConnectionClosed));
    assert!(goes_on(ReadOutcome::NothingYet));
    assert!(goes_on(ReadOutcome::OtherError));
    assert!(matches!(stream_step(StreamEvent::Closed), StreamAction::End));
    assert!(matches!(stream_step(StreamEvent::SourceClosed), StreamAction::End));
    assert!(matches!(stream_step(StreamEvent::Lagged), StreamAction::GoOn));
    match stream_step(StreamEvent::Packet { packet: Some(vec![1]) }) {
        StreamAction::SendOrEnd { packet } => assert_eq!(packet, vec![1]),
        _ => panic!("not sent"),
    }
}

#[test]
fn the_built_in_picture() {
    let config = MockCoreConfig::default();
    assert_eq!((config.width, config.height), (320, 240));
    assert_eq!(f32::from_bits(config.fps_bits), 60.0);
    let still = MockInput { a_held: false, b_held: false, x_bias: 10, y_bias: -127 };
    let picture = draw_mock_frame(3, 2, 300, still);
    assert_eq!(picture.len(), 24);
    let at = 4 * (3 + 2);
    let (x, y, frame) = (2u64, 1u64, 300u64);
    let red = (((x + frame) & 0xff) as i32 + 10).clamp(0, 255) as u8;
    let green = (((y + frame / 2) & 0xff) as i32 - 127).clamp(0, 255) as u8;
    let blue = ((frame & 0xff) as u8).saturating_add((x ^ y) as u8 / 2);
    assert_eq!(picture[at..at + 4].to_vec(), vec![blue, green, red, 0]);
    let held = MockInput { a_held: true, b_held: true, x_bias: 0, y_bias: 0 };
    let bright = draw_mock_frame(1, 1, 0, held);
    assert_eq!(bright, vec![0, 255, 255, 0]);
}
