use std::collections::HashMap;

use base64::engine::general_purpose::URL_SAFE_NO_PAD;
use base64::Engine;
use hmac::{Hmac, Mac};
use sha2::Sha256;

use nosebleed::auth::{MatchClaims, MatchRole};
use nosebleed::input::{Button, InputHub, InputUpdate};
use nosebleed::libretro::RuntimeCommand;
use nosebleed::peers::{
    cleanup_input_source, cleanup_input_source_at, cleanup_input_source_once, ChannelMessage,
    InputAction, InputEvent, InputSession, PeerState, SessionCleanup, WebRtcAction, WebRtcEvent,
    WebRtcSession, WebRtcStage,
};
use nosebleed::protocol::{
    ClientCommand, ClientMessage, InputBinary, ServerMessage, INPUT_BINARY_SIZE,
};
use nosebleed::registry::InputSessionRegistry;
use nosebleed::server::{
    authorize_claims, authorize_input_claims, authorize_input_claims_at, authorize_stream_claims,
    grant, process_input_payload, process_input_payload_at, source_id_for, AuthConfig, WebRtcOffer, WsQuery,
};
use nosebleed::session::{LaunchConfig, SessionManager, WorkspaceConfig};

const SECOND_NS: u128 = 1_000_000_000;

fn dummy_auth_config(require_auth: bool) -> AuthConfig {
    AuthConfig {
        require_auth,
        secret: if require_auth { Some(b"test-secret".to_vec()) } else { None },
        reconnect_window_ns: 30 * SECOND_NS,
    }
}

fn claims(role: MatchRole, ports: Vec<u32>) -> MatchClaims {
    MatchClaims {
        match_id: "m-1".to_string(),
        player_id: "p-1".to_string(),
        role,
        allowed_ports: ports,
        exp_unix_ms: 2_000_000_000_000,
        iat_unix_ms: None,
    }
}

fn no_claims(_payload: &Vec<u8>) -> Result<MatchClaims, String> {
    Err("nothing".to_string())
}

fn player(_payload: &Vec<u8>) -> Result<MatchClaims, String> {
    Ok(claims(MatchRole::Player, vec![0, 1]))
}

fn spectator(_payload: &Vec<u8>) -> Result<MatchClaims, String> {
    Ok(claims(MatchRole::Spectator, vec![]))
}

fn signed(payload: &str) -> String {
    let mut mac = Hmac::<Sha256>::new_from_slice(b"test-secret").unwrap();
    mac.update(payload.as_bytes());
    let tag = URL_SAFE_NO_PAD.encode(mac.finalize().into_bytes());
    format!("{}.{}", URL_SAFE_NO_PAD.encode(payload.as_bytes()), tag)
}

fn manager() -> SessionManager {
    SessionManager::new(LaunchConfig {
        core: None,
        content: None,
        fps_bits: 60.0f32.to_bits(),
        width: 640,
        height: 480,
        workspace: WorkspaceConfig::default(),
    })
}

fn offer(kind: &str) -> WebRtcOffer {
    WebRtcOffer { kind: kind.to_string(), sdp: "dummy".to_string(), video_mode: None }
}

fn press(button: Button) -> InputUpdate {
    let mut update = InputUpdate::default();
    update.buttons.insert(button, true);
    update
}

fn error_of(reply: ServerMessage) -> String {
    match reply {
        ServerMessage::Error { message } => message,
        ServerMessage::Ack { .. } => panic!("acknowledged"),
    }
}

#[test]
fn test_webrtc_offer_kind_validation() {
    let mut registry = InputSessionRegistry::default();
    let mut next = 0u64;
    let refused = WebRtcSession::open_at(
        &dummy_auth_config(false),
        &mut registry,
        &mut next,
        &offer("answer"),
        None,
        0,
        0,
        no_claims,
    )
    .unwrap_err();
    assert_eq!(refused.status, 400);
    assert_eq!(refused.message, "sdp type must be offer");
    assert_eq!(next, 0);
}

#[test]
fn test_authorize_stream_claims_no_auth_no_token() {
    let result = authorize_stream_claims(&dummy_auth_config(false), None, no_claims);
    assert!(result.is_ok());
    assert!(result.unwrap().is_none(), "should return None claims");
}

#[test]
fn test_authorize_stream_claims_missing_token() {
    let result = authorize_stream_claims(&dummy_auth_config(true), None, no_claims);
    assert!(result.is_err());
    assert!(
        result.is_err_and(|r| r.status == 401),
        "missing token with auth required should be 401"
    );
}

#[test]
fn test_authorize_stream_claims_invalid_token() {
    let result = authorize_stream_claims(&dummy_auth_config(true), Some("not.a.real.token"), no_claims);
    assert!(result.is_err(), "invalid token should be rejected");
}

#[test]
fn test_session_cleanup_armed_removes_session() {
    let mut hub = InputHub::default();
    let mut registry = InputSessionRegistry::default();
    let session_id = 42u64;
    let mut connections: HashMap<u64, &str> = HashMap::new();
    connections.insert(session_id, "connection");
    assert!(connections.contains_key(&session_id), "session should be present before cleanup");

    let mut cleanup = SessionCleanup::new("test-source-1".to_string(), session_id);
    cleanup.finish_at(&mut hub, &mut registry, &mut connections, 0, 30 * SECOND_NS);

    assert!(
        !connections.contains_key(&session_id),
        "armed SessionCleanup should remove session from registry"
    );
    assert!(cleanup.cleaned, "armed SessionCleanup should forget its source");
}

#[test]
fn test_session_cleanup_disarmed_noop() {
    let mut hub = InputHub::default();
    let mut registry = InputSessionRegistry::default();
    let session_id = 99u64;
    let mut connections: HashMap<u64, &str> = HashMap::new();
    connections.insert(session_id, "connection");

    let mut cleanup = SessionCleanup::new("test-source-2".to_string(), session_id);
    cleanup.disarm();
    cleanup.finish_at(&mut hub, &mut registry, &mut connections, 0, 30 * SECOND_NS);

    assert!(
        connections.contains_key(&session_id),
        "disarmed SessionCleanup should NOT remove session"
    );
    assert!(!cleanup.cleaned, "disarmed SessionCleanup should NOT forget its source");
}

#[test]
fn test_cleanup_input_source_once_second_call_skipped() {
    let mut hub = InputHub::default();
    let mut registry = InputSessionRegistry::default();
    let window = dummy_auth_config(false).reconnect_window_ns;
    let mut flag = false;
    cleanup_input_source_once(&mut hub, &mut registry, &mut flag, "test-source-a", window);
    assert!(flag, "first call fires");

    registry.reserve_ports("test-source-b", "player-1", &[0], window).unwrap();
    cleanup_input_source_once(&mut hub, &mut registry, &mut flag, "test-source-b", window);
    assert!(flag, "flag should remain true after second call");
    assert!(registry.is_source_owner("test-source-b", 0), "second call is skipped");
}

#[test]
fn test_cleanup_input_source_triggers_cleanup() {
    let mut hub = InputHub::default();
    let mut registry = InputSessionRegistry::default();
    let window = dummy_auth_config(false).reconnect_window_ns;
    registry
        .reserve_ports("cleanup-test", "player-1", &[0], 30 * SECOND_NS)
        .expect("reserve port");

    cleanup_input_source(&mut hub, &mut registry, "cleanup-test", window);

    if let Some(owner) = registry.per_port.get(&0) {
        assert!(
            owner.reconnect_until.is_some(),
            "port should have reconnect_until set after cleanup"
        );
        assert_eq!(owner.source_id, "cleanup-test");
    } else {
        panic!("port 0 should still exist with reconnect window");
    }

    let mut cleaned = false;
    cleanup_input_source_once(&mut hub, &mut registry, &mut cleaned, "cleanup-test", window);
    assert!(cleaned, "first call should fire");
    cleanup_input_source_once(&mut hub, &mut registry, &mut cleaned, "cleanup-test", window);
    assert!(cleaned, "flag should still be true after second call");
}

#[test]
fn test_input_session_registry_reserve_ports() {
    let mut registry = InputSessionRegistry::default();

    registry
        .reserve_ports("source-1", "player-1", &[0, 1], 30 * SECOND_NS)
        .expect("reserve ports");

    assert_eq!(registry.per_port.len(), 2);
    assert_eq!(registry.per_port.get(&0).unwrap().player_id, "player-1");
    assert_eq!(registry.per_port.get(&1).unwrap().player_id, "player-1");

    registry
        .reserve_ports("source-2", "player-1", &[0], 30 * SECOND_NS)
        .expect("same player re-reserve");
    assert_eq!(
        registry.per_port.get(&0).unwrap().source_id,
        "source-2",
        "port should transfer to new source for same player"
    );

    registry
        .reserve_ports("source-3", "player-2", &[1], 30 * SECOND_NS)
        .expect("different player can take over port (force-release old)");
    assert_eq!(
        registry.per_port.get(&1).unwrap().player_id,
        "player-2",
        "port should transfer to new player"
    );
}

#[test]
fn test_input_session_registry_mark_disconnected_reconnect() {
    let mut registry = InputSessionRegistry::default();

    registry
        .reserve_ports("source-1", "player-1", &[0, 1], 30 * SECOND_NS)
        .expect("reserve");

    registry.mark_disconnected("source-1", 60 * SECOND_NS);

    let owner0 = registry.per_port.get(&0).unwrap();
    assert!(owner0.reconnect_until.is_some(), "should have reconnect window");
    assert_eq!(owner0.source_id, "source-1");

    assert!(
        !registry.is_source_owner("source-1", 0),
        "source should not own port during reconnect window"
    );
}

#[test]
fn test_dummy_server_state_has_expected_defaults() {
    let auth = dummy_auth_config(false);
    assert!(!auth.require_auth);
    assert_eq!(auth.reconnect_window_ns, 30 * SECOND_NS);
}

#[test]
fn test_dummy_server_state_with_auth_has_secret() {
    let auth = dummy_auth_config(true);
    assert!(auth.require_auth);
    assert!(auth.secret.is_some());
}

#[test]
fn test_input_session_registry_is_source_owner_no_port() {
    let registry = InputSessionRegistry::default();
    assert!(!registry.is_source_owner("anyone", 0));
}

#[test]
fn test_input_session_registry_is_source_owner_reconnect_blocks() {
    let mut registry = InputSessionRegistry::default();
    registry
        .reserve_ports("source-1", "player-1", &[0], 30 * SECOND_NS)
        .expect("reserve");

    assert!(registry.is_source_owner("source-1", 0));

    registry.mark_disconnected("source-1", 60 * SECOND_NS);

    assert!(
        !registry.is_source_owner("source-1", 0),
        "source should not own port during reconnect window"
    );
}

#[test]
fn test_input_session_registry_cleanup_expired_removes_expired() {
    let mut registry = InputSessionRegistry::default();
    registry
        .reserve_ports_at(5 * SECOND_NS, "source-1", "player-1", &[0], 30 * SECOND_NS)
        .expect("reserve");

    if let Some(owner) = registry.per_port.get_mut(&0) {
        owner.reconnect_until = Some(5 * SECOND_NS - SECOND_NS);
    }

    registry.cleanup_expired_at(5 * SECOND_NS);

    assert!(
        !registry.per_port.contains_key(&0),
        "expired reconnect port should be cleaned up"
    );
}

#[test]
fn test_input_session_registry_cleanup_expired_keeps_active() {
    let mut registry = InputSessionRegistry::default();
    registry
        .reserve_ports("source-1", "player-1", &[0], 0)
        .expect("reserve with no reconnect");

    assert!(registry.per_port.contains_key(&0));

    registry.cleanup_expired();
    assert!(
        registry.per_port.contains_key(&0),
        "port without reconnect should survive cleanup"
    );
}

#[test]
fn test_input_session_registry_reserve_with_zero_reconnect() {
    let mut registry = InputSessionRegistry::default();
    registry
        .reserve_ports("source-1", "player-1", &[0, 1], 0)
        .expect("reserve with zero reconnect");
    assert_eq!(registry.per_port.len(), 2);
    assert!(registry.is_source_owner("source-1", 0));
}

#[test]
fn test_authorize_claims_no_auth_returns_none() {
    let result = authorize_stream_claims(&dummy_auth_config(false), None, no_claims);
    assert!(result.is_ok());
    assert!(result.unwrap().is_none());
}

#[test]
fn test_ws_query_default_token_is_none() {
    let query = WsQuery::default();
    assert!(query.token.is_none());
}

#[test]
fn test_cleanup_input_source_removes_source_from_hub() {
    let mut hub = InputHub::default();
    let mut registry = InputSessionRegistry::default();
    cleanup_input_source(&mut hub, &mut registry, "non-existent-source", 30 * SECOND_NS);
}

#[test]
fn access_is_refused_for_each_reason() {
    let token = signed("{}");
    let mut locked = dummy_auth_config(true);
    let missing = authorize_claims(&locked, None, false, 1, player).unwrap_err();
    assert_eq!((missing.status, missing.message.as_str()), (401, "missing token"));
    let broken = authorize_claims(&locked, Some("x"), false, 1, player).unwrap_err();
    assert_eq!(broken.status, 401);
    assert_eq!(broken.message, "invalid token: missing token signature");
    let unread = authorize_claims(&locked, Some(&token), false, 1, no_claims).unwrap_err();
    assert_eq!(unread.message, "invalid token: invalid token payload JSON: nothing");
    locked.secret = None;
    let unset = authorize_claims(&locked, Some(&token), false, 1, player).unwrap_err();
    assert_eq!((unset.status, unset.message.as_str()), (500, "auth secret not configured"));
}

#[test]
fn the_clock_on_the_wall_is_asked() {
    let token = signed("{}");
    let auth = dummy_auth_config(true);
    assert!(authorize_input_claims(&auth, Some(&token), player).unwrap().is_some());
    let late = |_payload: &Vec<u8>| {
        let mut old_claims = claims(MatchRole::Player, vec![0]);
        old_claims.exp_unix_ms = 1;
        Ok(old_claims)
    };
    assert_eq!(authorize_input_claims(&auth, Some(&token), late).unwrap_err().status, 401);

    let mut hub = InputHub::default();
    let registry = InputSessionRegistry::default();
    let mut sessions = manager();
    let input = ClientMessage::Input { port: 0, sequence: Some(9), update: press(Button::B) };
    let reply =
        process_input_payload(&mut hub, &registry, &mut sessions, "ws-1", &[], true, Ok(input));
    assert!(matches!(reply, ServerMessage::Ack { sequence: Some(9), .. }));
    assert_eq!(hub.joypad_button_state(0, Button::B.retro_id()), 1);
}

#[test]
fn only_players_play() {
    let token = signed("{}");
    let auth = dummy_auth_config(true);
    let granted = authorize_input_claims_at(&auth, Some(&token), 1, player).unwrap().unwrap();
    assert_eq!(granted.allowed_ports, vec![0, 1]);
    let portless = authorize_input_claims_at(&auth, Some(&token), 1, spectator).unwrap_err();
    assert_eq!(portless.status, 403);
    assert_eq!(portless.message, "player token has no assigned ports");
    let watching = |_payload: &Vec<u8>| Ok(claims(MatchRole::Spectator, vec![2]));
    let spectating = authorize_input_claims_at(&auth, Some(&token), 1, watching).unwrap_err();
    assert_eq!(spectating.message, "input requires player role");
    assert!(authorize_claims(&auth, Some(&token), false, 1, spectator).unwrap().is_some());
    assert_eq!(grant(Err("bad".to_string()), true).unwrap_err().message, "invalid token: bad");
}

#[test]
fn sources_are_named_after_their_players() {
    assert_eq!(source_id_for(&None, "ws", 7), "ws-7");
    let player = Some(claims(MatchRole::Player, vec![0]));
    assert_eq!(source_id_for(&player, "ws", 12), "p-1-12");
}

#[test]
fn a_lease_waits_for_its_player() {
    let mut registry = InputSessionRegistry::default();
    registry.lease_ports_at(0, "one", "ann", &[0]).unwrap();
    assert_eq!(
        registry.lease_ports_at(1, "two", "ben", &[0]).unwrap_err(),
        "port 0 already assigned to another player"
    );
    assert_eq!(
        registry.lease_ports_at(1, "two", "ann", &[1, 0]).unwrap_err(),
        "port 0 already active for this player"
    );
    registry.mark_disconnected_at(2, "one", 10);
    assert!(registry.lease_ports_at(3, "two", "ben", &[0]).is_err());
    assert!(registry.lease_ports_at(3, "two", "ann", &[0]).is_ok());
    registry.mark_disconnected_at(4, "two", 10);
    assert!(registry.lease_ports_at(14, "three", "ben", &[0]).is_ok());
}

fn say(
    hub: &mut InputHub,
    registry: &InputSessionRegistry,
    sessions: &mut SessionManager,
    owned: &[u32],
    allow: bool,
    message: ClientMessage,
) -> ServerMessage {
    process_input_payload_at(hub, registry, sessions, 10, 500, "src", owned, allow, Ok(message))
}

#[test]
fn messages_are_turned_down_for_each_reason() {
    let mut hub = InputHub::default();
    let registry = InputSessionRegistry::default();
    let mut sessions = manager();
    let input = ClientMessage::Input { port: 1, sequence: Some(4), update: press(Button::A) };
    let command = |command: ClientCommand, slot: Option<u8>| ClientMessage::Command {
        command,
        port: 1,
        slot,
        sequence: Some(5),
    };
    let mut why = |owned: &[u32], allow: bool, message: ClientMessage| {
        error_of(say(&mut hub, &registry, &mut sessions, owned, allow, message))
    };
    assert_eq!(why(&[], false, input), "input requires player role");
    assert_eq!(why(&[0], true, input), "port 1 not assigned to this player");
    assert_eq!(why(&[1], true, input), "source no longer owns port 1");
    assert_eq!(why(&[], false, command(ClientCommand::Reset, None)), "commands require player role");
    assert_eq!(
        why(&[0], true, command(ClientCommand::Reset, None)),
        "port 1 not assigned to this player"
    );
    assert_eq!(
        why(&[], true, command(ClientCommand::SaveState, None)),
        "save state requires a slot number"
    );
    assert_eq!(
        why(&[], true, command(ClientCommand::LoadState, Some(0))),
        "load state requires a slot number"
    );
    assert_eq!(
        why(&[], true, command(ClientCommand::Reset, None)),
        "reset failed: no active runtime to reset"
    );
    assert_eq!(
        why(&[], true, command(ClientCommand::SaveState, Some(2))),
        "save state failed: no active runtime to save a state from"
    );
    assert_eq!(
        why(&[], true, command(ClientCommand::LoadState, Some(2))),
        "load state failed: no active runtime to load a state into"
    );
    let broken = process_input_payload_at(
        &mut hub,
        &registry,
        &mut sessions,
        10,
        500,
        "src",
        &[],
        true,
        Err("odd".to_string()),
    );
    assert_eq!(error_of(broken), "invalid message: odd");
    assert_eq!(hub.joypad_button_state_at(11, 1, Button::A.retro_id()), 0);
}

#[test]
fn messages_do_what_they_ask_for() {
    let mut hub = InputHub::default();
    let mut registry = InputSessionRegistry::default();
    let mut sessions = manager();
    registry.reserve_ports_at(0, "src", "ann", &[1], 0).unwrap();
    let input = ClientMessage::Input { port: 1, sequence: Some(4), update: press(Button::A) };
    let reply = say(&mut hub, &registry, &mut sessions, &[1], true, input);
    assert!(matches!(reply, ServerMessage::Ack { sequence: Some(4), server_time_ms: 500 }));
    assert_eq!(hub.joypad_button_state_at(11, 1, Button::A.retro_id()), 1);

    let coin = ClientMessage::Command {
        command: ClientCommand::InsertCoin,
        port: 1,
        slot: None,
        sequence: Some(6),
    };
    say(&mut hub, &registry, &mut sessions, &[1], true, coin);
    assert_eq!(hub.joypad_button_state_at(11, 1, Button::Select.retro_id()), 1);

    let ping = ClientMessage::Ping { client_time_ms: Some(1) };
    let pong = say(&mut hub, &registry, &mut sessions, &[1], false, ping);
    assert!(matches!(pong, ServerMessage::Ack { sequence: None, server_time_ms: 500 }));

    let defaults = sessions.start_from_request(nosebleed::session::StartRequest {
        core: None,
        content: None,
        fps_bits: None,
        width: None,
        height: None,
        force_restart: false,
        workspace: None,
    });
    sessions.started(defaults, None, 1);
    let save = ClientMessage::Command {
        command: ClientCommand::SaveState,
        port: 1,
        slot: Some(3),
        sequence: None,
    };
    let saved = say(&mut hub, &registry, &mut sessions, &[1], true, save);
    assert!(matches!(saved, ServerMessage::Ack { sequence: None, .. }));
    let control = &mut sessions.state.active.as_mut().unwrap().control;
    assert_eq!(control.take_commands(), vec![RuntimeCommand::SaveState { slot: 3 }]);
}

struct Stage {
    hub: InputHub,
    registry: InputSessionRegistry,
    connections: HashMap<u64, u8>,
    session: WebRtcSession,
}

fn opened(parse: fn(&Vec<u8>) -> Result<MatchClaims, String>) -> Stage {
    let mut registry = InputSessionRegistry::default();
    let mut next = 5u64;
    let session = WebRtcSession::open_at(
        &dummy_auth_config(true),
        &mut registry,
        &mut next,
        &offer("offer"),
        Some(&signed("{}")),
        0,
        1,
        parse,
    )
    .unwrap();
    assert_eq!(next, 6);
    Stage { hub: InputHub::default(), registry, connections: HashMap::new(), session }
}

impl Stage {
    fn go(&mut self, event: WebRtcEvent) -> WebRtcAction {
        self.session.advance_at(
            &mut self.hub,
            &mut self.registry,
            &mut self.connections,
            1,
            30 * SECOND_NS,
            event,
        )
    }
}

#[test]
fn a_stream_is_opened_step_by_step() {
    let mut stage = opened(player);
    assert_eq!(stage.session.cleanup.source_id, "p-1-5");
    assert_eq!(stage.session.owned_ports, vec![0, 1]);
    assert!(stage.registry.is_source_owner("p-1-5", 0));
    let connected = WebRtcEvent::Connected { outcome: Ok(()), media: true };
    assert!(matches!(stage.go(connected), WebRtcAction::AttachVideo));
    assert!(matches!(
        stage.go(WebRtcEvent::VideoAttached { outcome: Ok(()) }),
        WebRtcAction::AttachAudio
    ));
    assert!(matches!(
        stage.go(WebRtcEvent::AudioAttached { outcome: Ok(()) }),
        WebRtcAction::OpenChannel
    ));
    assert!(matches!(stage.go(WebRtcEvent::ChannelAsked), WebRtcAction::Negotiate));
    stage.connections.insert(5, 1);
    match stage.go(WebRtcEvent::Negotiated { outcome: Ok("v=0".to_string()) }) {
        WebRtcAction::Answer { answer } => {
            assert_eq!((answer.kind, answer.sdp.as_str()), ("answer", "v=0"));
        }
        _ => panic!("no answer"),
    }
    assert_eq!(stage.session.stage, WebRtcStage::Live);
    assert!(!stage.session.cleanup.armed);
    assert!(stage.connections.contains_key(&5));
    assert!(stage.registry.is_source_owner("p-1-5", 0));
    assert!(matches!(stage.go(WebRtcEvent::ChannelAsked), WebRtcAction::Nothing));
}

#[test]
fn a_spectator_gets_no_channel() {
    let mut stage = opened(spectator);
    assert!(!stage.session.input_allowed);
    assert_eq!(stage.session.owned_ports, Vec::<u32>::new());
    stage.go(WebRtcEvent::Connected { outcome: Ok(()), media: true });
    stage.go(WebRtcEvent::VideoAttached { outcome: Ok(()) });
    let next = stage.go(WebRtcEvent::AudioAttached { outcome: Ok(()) });
    assert!(matches!(next, WebRtcAction::Negotiate));
}

fn refusal(action: WebRtcAction) -> String {
    match action {
        WebRtcAction::Refuse { refusal } => {
            assert_eq!(refusal.status, 500);
            refusal.message
        }
        _ => panic!("not refused"),
    }
}

#[test]
fn a_stream_that_fails_leaves_nothing() {
    let mut stage = opened(player);
    let failed = WebRtcEvent::Connected { outcome: Err("x".to_string()), media: true };
    assert_eq!(refusal(stage.go(failed)), "failed to create peer connection: x");
    assert!(!stage.registry.is_source_owner("p-1-5", 0));
    assert_eq!(stage.session.stage, WebRtcStage::Over);

    let mut silent = opened(player);
    let without = WebRtcEvent::Connected { outcome: Ok(()), media: false };
    assert_eq!(
        refusal(silent.go(without)),
        "gstreamer backend selected but runtime was unavailable"
    );

    let mut blind = opened(player);
    blind.go(WebRtcEvent::Connected { outcome: Ok(()), media: true });
    assert_eq!(
        refusal(blind.go(WebRtcEvent::VideoAttached { outcome: Err("y".to_string()) })),
        "failed to attach gstreamer video track: y"
    );

    let mut deaf = opened(player);
    deaf.go(WebRtcEvent::Connected { outcome: Ok(()), media: true });
    deaf.go(WebRtcEvent::VideoAttached { outcome: Ok(()) });
    assert_eq!(
        refusal(deaf.go(WebRtcEvent::AudioAttached { outcome: Err("z".to_string()) })),
        "failed to attach gstreamer audio track: z"
    );

    let mut stubborn = opened(spectator);
    stubborn.go(WebRtcEvent::Connected { outcome: Ok(()), media: true });
    stubborn.go(WebRtcEvent::VideoAttached { outcome: Ok(()) });
    stubborn.go(WebRtcEvent::AudioAttached { outcome: Ok(()) });
    stubborn.connections.insert(5, 1);
    assert_eq!(refusal(stubborn.go(WebRtcEvent::Negotiated { outcome: Err("no".to_string()) })), "no");
    assert!(stubborn.connections.is_empty());
}

#[test]
fn a_connection_that_is_gone_is_let_go_of() {
    let mut stage = opened(player);
    stage.connections.insert(5, 1);
    for state in [PeerState::Connected, PeerState::Disconnected, PeerState::Closed] {
        stage.session.connection_changed_at(
            &mut stage.hub,
            &mut stage.registry,
            &mut stage.connections,
            1,
            30 * SECOND_NS,
            state,
        );
        assert_eq!(stage.connections.contains_key(&5), state != PeerState::Closed);
    }
    assert!(stage.session.cleanup.cleaned);
    assert!(!stage.registry.is_source_owner("p-1-5", 0));
}

#[test]
fn what_comes_over_a_channel() {
    let mut stage = opened(player);
    let mut sessions = manager();
    let record = InputBinary { port: 1, sequence: 9, update: press(Button::B) };
    let bytes = ChannelMessage { len: INPUT_BINARY_SIZE, record: Some(record), parsed: None };
    let none = stage.session.channel_message_at(
        &mut stage.hub,
        &stage.registry,
        &mut sessions,
        5,
        500,
        true,
        bytes,
    );
    assert!(none.is_none());
    assert_eq!(stage.hub.joypad_button_state_at(6, 1, Button::B.retro_id()), 1);
    for opened_by_client in [true, false] {
        let garbage = ChannelMessage { len: 3, record: None, parsed: None };
        let reply = stage.session.channel_message_at(
            &mut stage.hub,
            &stage.registry,
            &mut sessions,
            5,
            500,
            opened_by_client,
            garbage,
        );
        match reply {
            Some(reply) => {
                assert!(opened_by_client);
                assert_eq!(error_of(reply), "binary messages must be UTF-8 JSON");
            }
            None => assert!(!opened_by_client),
        }
    }
    let ping = ClientMessage::Ping { client_time_ms: None };
    let text = ChannelMessage { len: 3, record: None, parsed: Some(Ok(ping)) };
    let reply = stage.session.channel_message_at(
        &mut stage.hub,
        &stage.registry,
        &mut sessions,
        5,
        500,
        true,
        text,
    );
    assert!(matches!(reply, Some(ServerMessage::Ack { .. })));
}

#[test]
fn an_input_connection_from_start_to_end() {
    let auth = dummy_auth_config(true);
    let mut hub = InputHub::default();
    let mut registry = InputSessionRegistry::default();
    let mut sessions = manager();
    let mut next = 1u64;
    let session =
        InputSession::open_at(&auth, &mut next, Some(&signed("{}")), 1, player).unwrap();
    assert_eq!(session.source_id, "p-1-1");
    assert_eq!(next, 2);
    assert!(session.start_at(&mut registry, 0, auth.reconnect_window_ns).is_none());
    assert!(registry.is_source_owner("p-1-1", 1));

    let mut take = |event: InputEvent| session.take_at(&mut hub, &registry, &mut sessions, 5, 500, event);
    let record = InputBinary { port: 1, sequence: 9, update: press(Button::B) };
    assert!(matches!(
        take(InputEvent::Binary { len: INPUT_BINARY_SIZE, record: Some(record), parsed: None }),
        InputAction::Reply { reply: ServerMessage::Ack { sequence: Some(9), server_time_ms: 500 } }
    ));
    let elsewhere = InputBinary { port: 3, sequence: 9, update: press(Button::B) };
    match take(InputEvent::Binary { len: INPUT_BINARY_SIZE, record: Some(elsewhere), parsed: None }) {
        InputAction::Reply { reply } => {
            assert_eq!(error_of(reply), "port 3 not assigned to this player");
        }
        _ => panic!("no reply"),
    }
    match take(InputEvent::Binary { len: 2, record: None, parsed: None }) {
        InputAction::Reply { reply } => assert_eq!(
            error_of(reply),
            "invalid binary input: binary input must be exactly 34 bytes, got 2"
        ),
        _ => panic!("no reply"),
    }
    let ping = ClientMessage::Ping { client_time_ms: None };
    assert!(matches!(take(InputEvent::Text { parsed: Ok(ping) }), InputAction::ReplyOrEnd { .. }));
    match take(InputEvent::Binary { len: 33, record: Some(record), parsed: None }) {
        InputAction::Reply { reply } => assert_eq!(
            error_of(reply),
            "invalid binary input: binary input must be exactly 34 bytes, got 33"
        ),
        _ => panic!("no reply"),
    }
    let bytes = InputEvent::Binary { len: 9, record: None, parsed: Some(Ok(ping)) };
    assert!(matches!(take(bytes), InputAction::ReplyOrEnd { reply: ServerMessage::Ack { .. } }));
    match take(InputEvent::Ping { payload: vec![1, 2] }) {
        InputAction::PongOrEnd { payload } => assert_eq!(payload, vec![1, 2]),
        _ => panic!("no pong"),
    }
    assert!(matches!(take(InputEvent::Pong), InputAction::GoOn));
    assert!(matches!(take(InputEvent::Closed), InputAction::End));
    assert!(matches!(take(InputEvent::Broken), InputAction::End));

    assert_eq!(hub.joypad_button_state_at(6, 1, Button::B.retro_id()), 1);
    cleanup_input_source_at(&mut hub, &mut registry, 7, "p-1-1", auth.reconnect_window_ns);
    assert_eq!(hub.joypad_button_state_at(8, 1, Button::B.retro_id()), 0);
    assert!(!registry.is_source_owner("p-1-1", 1));
}

#[test]
fn a_port_is_kept_for_a_player_who_is_gone() {
    let mut registry = InputSessionRegistry::default();
    registry.reserve_ports("s1", "player-1", &[0], 30 * SECOND_NS).unwrap();
    registry.mark_disconnected("s1", 60 * SECOND_NS);
    let until = registry.per_port.get(&0).unwrap().reconnect_until;
    let why = registry.reserve_ports("s2", "player-2", &[3, 0], 30 * SECOND_NS).unwrap_err();
    assert_eq!(why, "port 0 already assigned to another player");
    let kept = registry.per_port.get(&0).unwrap();
    assert_eq!((kept.player_id.as_str(), kept.source_id.as_str()), ("player-1", "s1"));
    assert_eq!(kept.reconnect_until, until);
    assert!(registry.per_port.get(&3).is_none());
    registry.reserve_ports("s2", "player-1", &[0], 30 * SECOND_NS).unwrap();
    assert!(registry.is_source_owner("s2", 0));
}

#[test]
fn a_port_is_free_once_the_window_has_passed() {
    let mut registry = InputSessionRegistry::default();
    registry.reserve_ports_at(0, "s1", "player-1", &[0], 0).unwrap();
    registry.mark_disconnected_at(10, "s1", 50);
    assert!(registry.reserve_ports_at(59, "s2", "player-2", &[0], 0).is_err());
    registry.reserve_ports_at(60, "s2", "player-2", &[0], 0).unwrap();
    assert!(registry.is_source_owner("s2", 0));
}

#[test]
fn a_kept_port_refuses_streams_and_input() {
    let auth = dummy_auth_config(true);
    let mut registry = InputSessionRegistry::default();
    registry.reserve_ports_at(0, "s1", "other", &[1], 0).unwrap();
    registry.mark_disconnected_at(1, "s1", 100);
    let mut next = 5u64;
    let token = signed("{}");
    let open = |registry: &mut InputSessionRegistry, next: &mut u64, now: u128| {
        WebRtcSession::open_at(
            &auth,
            registry,
            next,
            &offer("offer"),
            Some(&token),
            now,
            1,
            player,
        )
    };
    let refusal = open(&mut registry, &mut next, 2).unwrap_err();
    assert_eq!(refusal.status, 409);
    assert_eq!(refusal.message, "port 1 already assigned to another player");
    assert_eq!(next, 6);
    let input = InputSession::open_at(&auth, &mut next, Some(&token), 1, player).unwrap();
    let told = input.start_at(&mut registry, 2, auth.reconnect_window_ns).unwrap();
    assert_eq!(error_of(told), "port 1 already assigned to another player");
    assert!(open(&mut registry, &mut next, 101).is_ok());
}
