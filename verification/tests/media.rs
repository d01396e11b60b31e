use nosebleed::media::{
    build_candidates, detect_gstreamer_capabilities, select_encoder, GstreamerElements,
    GstreamerPipelineSpec, GstreamerProbe, MediaBackend, MediaConfig, VideoCodec,
    VideoEncoderConfig, VideoEncoderSelection, VideoEnv,
};

#[test]
fn parses_media_backend_aliases() {
    assert_eq!(
        MediaBackend::parse("gstreamer").unwrap(),
        MediaBackend::Gstreamer
    );
    assert_eq!(MediaBackend::parse("gst").unwrap(), MediaBackend::Gstreamer);
}

#[test]
fn invalid_backend_returns_error() {
    let err = MediaBackend::parse("banana").unwrap_err().to_string();
    assert!(err.contains("unsupported media backend"));
}

fn nothing_set() -> VideoEnv {
    VideoEnv {
        codec: None,
        encoder: None,
        bitrate_kbps: None,
        keyframe_interval: None,
        low_latency: None,
    }
}

#[test]
fn source_priority_is_cli_then_env_then_file_then_default() {
    let env = nothing_set();
    assert_eq!(
        MediaConfig::from_sources(Some("gstreamer"), None, Some("legacy"), None, None, &env)
            .unwrap()
            .selected_backend,
        MediaBackend::Gstreamer
    );
    assert_eq!(
        MediaConfig::from_sources(None, Some("gstreamer"), Some("legacy"), None, None, &env)
            .unwrap()
            .selected_backend,
        MediaBackend::Gstreamer
    );
    assert_eq!(
        MediaConfig::from_sources(None, None, Some("gstreamer"), None, None, &env)
            .unwrap()
            .selected_backend,
        MediaBackend::Gstreamer
    );
    assert_eq!(
        MediaConfig::from_sources(None, None, None, None, None, &env).unwrap().selected_backend,
        MediaBackend::Gstreamer
    );
}

#[test]
fn vp8_opus_pipeline_spec_uses_low_latency_gstreamer_elements() {
    let spec = GstreamerPipelineSpec::vp8_opus_software();

    assert_eq!(spec.video_codec, "vp8");
    assert_eq!(spec.video_encoder, "vp8enc");
    assert_eq!(spec.audio_codec, "opus");
    assert_eq!(spec.audio_encoder, "opusenc");
    assert!(spec.video_pipeline.contains("queue leaky=downstream"));
    assert!(spec.video_pipeline.contains("videoconvert"));
    assert!(spec.video_pipeline.contains("rtpvp8pay"));
    assert!(spec.video_pipeline.contains("appsink name=video_sink"));
    assert!(spec.audio_pipeline.contains("audioconvert ! audioresample"));
    assert!(spec.audio_pipeline.contains("rtpopuspay"));
    assert!(spec.audio_pipeline.contains("appsink name=audio_sink"));
}

#[test]
fn h264_pipelines_have_correct_mime_type() {
    for spec in &[
        GstreamerPipelineSpec::h264_nvenc(2500, 60),
        GstreamerPipelineSpec::h264_qsv(2500, 60),
        GstreamerPipelineSpec::h264_vaapi(2500, 60),
        GstreamerPipelineSpec::h264_x264_software(2500, 60),
    ] {
        assert_eq!(spec.video_codec, "h264");
        assert!(spec.video_pipeline.contains("rtph264pay"));
        assert!(spec.video_pipeline.contains("appsink name=video_sink"));
    }
}

#[test]
fn encoder_selection_parse_aliases() {
    assert_eq!(
        VideoEncoderSelection::parse("auto").unwrap(),
        VideoEncoderSelection::Auto
    );
    assert_eq!(
        VideoEncoderSelection::parse("nvenc").unwrap(),
        VideoEncoderSelection::Nvenc
    );
    assert_eq!(
        VideoEncoderSelection::parse("software").unwrap(),
        VideoEncoderSelection::Software
    );
    assert!(VideoEncoderSelection::parse("banana").is_err());
}

fn all_elements() -> GstreamerElements {
    let mut elements = GstreamerElements::all_false();
    elements.appsrc = true;
    elements.webrtcbin = true;
    elements.opusenc = true;
    elements.rtpopuspay = true;
    elements.vp8enc = true;
    elements.x264enc = true;
    elements.nvh264enc = true;
    elements
}

#[test]
fn the_environment_is_read() {
    let mut env = nothing_set();
    env.codec = Some(" VP8 ".to_string());
    env.encoder = Some("x264".to_string());
    env.bitrate_kbps = Some("50".to_string());
    env.keyframe_interval = Some("junk".to_string());
    env.low_latency = Some("Off".to_string());
    let config = VideoEncoderConfig::from_env(None, None, &env).unwrap();
    assert_eq!(config.codec, VideoCodec::Vp8);
    assert_eq!(config.encoder, VideoEncoderSelection::X264);
    assert_eq!(config.bitrate_kbps, 100);
    assert_eq!(config.keyframe_interval, 60);
    assert!(!config.low_latency);
    let overridden = VideoEncoderConfig::from_env(Some("h264"), Some("auto"), &env).unwrap();
    assert_eq!(overridden.codec, VideoCodec::H264);
    assert_eq!(overridden.encoder, VideoEncoderSelection::Auto);
    assert_eq!(
        VideoEncoderConfig::from_env(Some("mpeg"), None, &nothing_set()).unwrap_err(),
        "unsupported video codec 'mpeg'"
    );
}

#[test]
fn hardware_goes_before_software() {
    let config = VideoEncoderConfig::default();
    let chosen = select_encoder(&config, &all_elements()).unwrap();
    assert_eq!(chosen.spec.video_encoder, "nvh264enc");
    assert!(chosen.spec.hardware);
    let mut plain = all_elements();
    plain.nvh264enc = false;
    let software = select_encoder(&config, &plain).unwrap();
    assert_eq!(software.spec.video_encoder, "x264enc");
}

#[test]
fn an_encoder_that_is_not_there_is_not_chosen() {
    let mut config = VideoEncoderConfig::default();
    config.encoder = VideoEncoderSelection::Qsv;
    assert!(select_encoder(&config, &all_elements()).is_err());
    assert!(select_encoder(&VideoEncoderConfig::default(), &GstreamerElements::all_false()).is_err());
}

#[test]
fn every_candidate_is_listed() {
    let list = build_candidates(&all_elements());
    let usable: Vec<&str> = list.iter().filter(|c| c.usable).map(|c| c.element).collect();
    assert!(usable.contains(&"nvh264enc"));
    assert!(usable.contains(&"x264enc"));
    for candidate in &list {
        assert_eq!(candidate.usable, candidate.skip_reason.is_none());
    }
}

#[test]
fn names_are_read_back() {
    for name in ["auto", "software", "nvenc", "qsv", "vaapi", "v4l2", "x264", "vp8"] {
        assert_eq!(VideoEncoderSelection::parse(name).unwrap().as_str(), name);
    }
    assert!(VideoEncoderSelection::Nvenc.is_hardware());
    assert!(!VideoEncoderSelection::X264.is_hardware());
}

#[test]
fn a_framework_that_does_not_start_is_told() {
    let missing = detect_gstreamer_capabilities(Err("no library".to_string()));
    assert!(!missing.init_ok);
    assert!(!missing.available_for_runtime);
    let probe = GstreamerProbe { version: "1.24".to_string(), elements: all_elements() };
    let there = detect_gstreamer_capabilities(Ok(probe));
    assert!(there.init_ok);
    assert_eq!(there.version.as_deref(), Some("1.24"));
}
