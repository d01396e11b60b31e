use nosebleed::arcade::{ArcadeError, Side};
use nosebleed::gstreamer_backend::RawFramePacket;
use nosebleed::media::{
    detect_gstreamer_capabilities, MediaCapabilities, MediaConfig, MediaRuntimeStatus, VideoEnv,
};
use nosebleed::protocol::encode_frame_packet_at;
use nosebleed::frame::{LatestFrameStore, PixelFormat};
use nosebleed::snapshot::{answer_image, picture_snapshot, rgb_of, session_snapshot};
use nosebleed::streaming::{
    arcade_error_response, ice_servers, media_capabilities, negotiated_answer, negotiation_failure,
    queue_side, read_offer, start_refusal, winner_side, LocalDescription, NegotiationStep,
};

fn picture(format: u8, width: u32, height: u32, pitch: usize, payload: Vec<u8>) -> RawFramePacket {
    RawFramePacket {
        sequence: 0,
        timestamp_us: 0,
        width,
        height,
        pitch,
        pixel_format: format,
        pixel_aspect_ratio_bits: 1.0f32.to_bits(),
        payload,
    }
}

#[test]
fn colours_of_the_three_formats() {
    let bgrx = picture(0, 1, 2, 4, vec![1, 2, 3, 0, 4, 5, 6, 0]);
    assert_eq!(rgb_of(&bgrx).unwrap(), vec![3, 2, 1, 6, 5, 4]);
    let word = (21u16 << 11) | (42 << 5) | 17;
    let rgb16 = picture(1, 1, 1, 2, word.to_le_bytes().to_vec());
    assert_eq!(rgb_of(&rgb16).unwrap(), vec![21 << 3, 42 << 2, 17 << 3]);
    let word = (1u16 << 15) | (21 << 10) | (9 << 5) | 17;
    let xrgb = picture(2, 1, 1, 2, word.to_le_bytes().to_vec());
    assert_eq!(rgb_of(&xrgb).unwrap(), vec![21 << 3, 9 << 3, 17 << 3]);
    assert!(rgb_of(&picture(3, 1, 1, 2, vec![0; 4])).is_none());
}

#[test]
fn a_snapshot_is_an_image() {
    let frame = picture(0, 2, 1, 8, vec![1, 2, 3, 0, 4, 5, 6, 0]);
    let png = picture_snapshot(&frame).unwrap();
    let decoded = image::load_from_memory(&png).unwrap().to_rgb8();
    assert_eq!((decoded.width(), decoded.height()), (2, 1));
    assert_eq!(decoded.into_raw(), vec![3, 2, 1, 6, 5, 4]);
}

#[test]
fn snapshots_that_fail() {
    let none = session_snapshot(None).unwrap_err();
    assert_eq!((none.status, none.message.as_str()), (503, "no frame available"));
    let junk = session_snapshot(Some(&[1, 2, 3])).unwrap_err();
    assert_eq!((junk.status, junk.message.as_str()), (500, "failed to decode frame"));
    let odd = picture_snapshot(&picture(7, 1, 1, 4, vec![0; 4])).unwrap_err();
    assert_eq!(odd.message, "unsupported pixel format");
    let short = picture_snapshot(&picture(0, 2, 2, 8, vec![0; 8])).unwrap_err();
    assert_eq!(short.message, "invalid frame dimensions");
    let empty = picture_snapshot(&picture(0, 0, 0, 0, vec![])).unwrap_err();
    assert_eq!(empty.message, "png encode failed");
    assert_eq!(answer_image(Some(Some(vec![1]))).unwrap(), vec![1]);
    assert_eq!(answer_image(Some(None)).unwrap_err().message, "png encode failed");
    assert_eq!(answer_image(None).unwrap_err().message, "invalid frame dimensions");
}

#[test]
fn a_packet_becomes_an_image() {
    let mut store = LatestFrameStore::default();
    store.publish(1, 1, 4, PixelFormat::Xrgb8888, 1.0f32.to_bits(), &[9, 8, 7, 0]);
    let packet = encode_frame_packet_at(store.newer_than(None).unwrap(), 1);
    let png = session_snapshot(Some(&packet)).unwrap();
    assert_eq!(image::load_from_memory(&png).unwrap().to_rgb8().into_raw(), vec![7, 8, 9]);
}

#[test]
fn the_relay_needs_a_credential() {
    let plain = ice_servers("", "example.org", "");
    assert_eq!(plain.len(), 1);
    assert_eq!(
        plain[0].urls,
        vec!["stun:stun.l.google.com:19302", "stun:stun1.l.google.com:19302"]
    );
    let public = ice_servers("key", "example.org", "");
    assert_eq!(public[1].urls, vec!["turns:example.org:5349?transport=tcp"]);
    assert_eq!(public[1].username, "nosebleed");
    assert_eq!(public[1].credential, "key");
    let inside = ice_servers("key", "example.org", "turn:10.0.0.1:3478");
    assert_eq!(inside[1].urls, vec!["turn:10.0.0.1:3478"]);
}

#[test]
fn negotiation_is_told_step_by_step() {
    assert_eq!(negotiation_failure(NegotiationStep::ReadOffer, "x"), "invalid remote offer: x");
    assert_eq!(
        negotiation_failure(NegotiationStep::SetRemote, "x"),
        "failed to set remote description: x"
    );
    assert_eq!(
        negotiation_failure(NegotiationStep::CreateAnswer, "x"),
        "failed to create answer: x"
    );
    assert_eq!(
        negotiation_failure(NegotiationStep::SetLocal, "x"),
        "failed to set local description: x"
    );
    let answer =
        negotiated_answer(Some(LocalDescription { is_answer: true, sdp: "v=0".to_string() }));
    assert_eq!(answer.unwrap().sdp, "v=0");
    let other =
        negotiated_answer(Some(LocalDescription { is_answer: false, sdp: "v=0".to_string() }));
    assert_eq!(other.unwrap_err(), "local description was not an answer");
    assert_eq!(negotiated_answer(None).unwrap_err(), "local description unavailable");
}

#[test]
fn refusals_have_their_status() {
    assert_eq!(start_refusal("session already running".to_string()).status, 409);
    assert_eq!(start_refusal("no such core".to_string()).status, 400);
    let missing = arcade_error_response(&ArcadeError::NotFound("machine 9 not found".to_string()));
    assert_eq!((missing.status, missing.message.as_str()), (404, "machine 9 not found"));
    assert_eq!(queue_side(" LEFT ").unwrap(), Side::Left);
    assert_eq!(queue_side("up").unwrap_err().message, "side must be one of: left, right");
    assert_eq!(winner_side("right").unwrap(), Side::Right);
    let wrong = winner_side("").unwrap_err();
    assert_eq!((wrong.status, wrong.message.as_str()), (400, "winner_side must be one of: left, right"));
}

#[test]
fn the_running_pipelines_are_told() {
    let env = VideoEnv {
        codec: None,
        encoder: None,
        bitrate_kbps: None,
        keyframe_interval: None,
        low_latency: None,
    };
    let config = MediaConfig::from_sources(None, None, None, None, None, &env).unwrap();
    let capabilities = MediaCapabilities::detect(
        &config,
        detect_gstreamer_capabilities(Err("gone".to_string())),
    );
    let idle = media_capabilities(capabilities.clone(), &config, None);
    assert_eq!(idle.runtime.backend, "gstreamer");
    let mut playing = MediaRuntimeStatus::default();
    playing.pipeline_state = "playing";
    let told = media_capabilities(capabilities, &config, Some(playing));
    assert_eq!(told.runtime.pipeline_state, "playing");
}

#[test]
fn test_invalid_sdp_parsing() {
    let result = read_offer("this is not valid sdp".to_string());
    assert!(result.is_err(), "garbage SDP should fail to parse");
}

#[test]
fn test_negotiate_webrtc_offer_invalid_sdp() {
    let why = read_offer("not a valid sdp".to_string()).unwrap_err();
    assert!(why.starts_with("invalid remote offer: "), "{why}");
    assert!(why.len() > "invalid remote offer: ".len());
}

#[test]
fn an_offer_is_read_by_its_crate() {
    let sdp = "v=0\r\no=- 7 1 IN IP4 127.0.0.1\r\ns=-\r\nt=0 0\r\n";
    let offer = read_offer(sdp.to_string()).unwrap();
    assert_eq!(offer.sdp, sdp);
    assert_eq!(offer.unmarshal().unwrap().origin.session_id, 7);
    let broken = "v=1\r\no=- 7 1 IN IP4 127.0.0.1\r\ns=-\r\nt=0 0\r\n";
    assert!(read_offer(broken.to_string()).is_err());
}
