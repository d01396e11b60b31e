//! What the server decides: who may do what, what a message does, and what is
//! answered.

use vstd::prelude::*;

use crate::auth;
use crate::auth::{validate_match_token, MatchClaims, MatchRole};
use crate::clock::{now_unix_ms, MAX_DURATION_NS};
use crate::input;
use crate::input::{Button, HubModel, InputHub};
use crate::protocol::{ClientCommand, ClientMessage, ServerMessage};
use crate::registry;
use crate::registry::{InputSessionRegistry, PortsModel};
use crate::session;
use crate::session::{ManagerState, SessionManager};
use crate::libretro::RuntimeCommand;
use crate::text;

verus! {

/// Whether tokens are asked for, what they are signed with, and how long a port
/// is kept for a player whose source is gone.
#[derive(Debug, Clone)]
pub struct AuthConfig {
    pub require_auth: bool,
    pub secret: Option<Vec<u8>>,
    pub reconnect_window_ns: u128,
}

/// The answer to a request that is turned down: an HTTP status and a text.
#[derive(Debug, Clone)]
pub struct Refusal {
    pub status: u16,
    pub message: String,
}

pub open spec fn refuses(refusal: Refusal, status: u16, message: Seq<char>) -> bool {
    refusal.status == status && refusal.message@ == message
}

/// The query of a request that may bring a token.
#[derive(Debug)]
pub struct WsQuery {
    pub token: Option<String>,
}

impl Default for WsQuery {
    fn default() -> (query: Self)
        ensures
            query.token is None,
    {
        WsQuery { token: None }
    }
}

/// A browser's offer of a stream.
#[derive(Debug, Clone)]
pub struct WebRtcOffer {
    pub kind: String,
    pub sdp: String,
    pub video_mode: Option<String>,
}

pub fn refuse(status: u16, message: &str) -> (refusal: Refusal)
    ensures
        refuses(refusal, status, message@),
{
    Refusal { status, message: message.to_owned() }
}

pub fn refuse_for(status: u16, context: &str, why: &str) -> (refusal: Refusal)
    ensures
        refuses(refusal, status, context@ + why@),
{
    let mut message = context.to_owned();
    message.append(why);
    Refusal { status, message }
}

/// What asking for access answers. Without a token access is free where tokens
/// are not asked for; a token that is brought always has to be good.
pub open spec fn access_outcome<F: Fn(&Vec<u8>) -> Result<MatchClaims, String>>(
    auth: AuthConfig,
    token: Option<&str>,
    require_player_ports: bool,
    now_unix_ms: u64,
    parse: F,
    answer: Result<Option<MatchClaims>, Refusal>,
) -> bool {
    if token is None && !auth.require_auth {
        answer == Ok::<Option<MatchClaims>, Refusal>(None)
    } else if token is None {
        answer is Err && refuses(answer->Err_0, 401, "missing token"@)
    } else if auth.secret is None {
        answer is Err && refuses(answer->Err_0, 500, "auth secret not configured"@)
    } else {
        exists|checked: Result<MatchClaims, String>| #[trigger]
            auth::token_outcome(token->0@, auth.secret->0@, now_unix_ms, parse, checked)
                && granted(checked, require_player_ports, answer)
    }
}

/// What a token that was checked comes to.
pub open spec fn granted(
    checked: Result<MatchClaims, String>,
    require_player_ports: bool,
    answer: Result<Option<MatchClaims>, Refusal>,
) -> bool {
    match checked {
        Err(why) => answer is Err && refuses(answer->Err_0, 401, "invalid token: "@ + why@),
        Ok(claims) => if require_player_ports && claims.allowed_ports@.len() == 0 {
            answer is Err && refuses(answer->Err_0, 403, "player token has no assigned ports"@)
        } else {
            answer == Ok::<Option<MatchClaims>, Refusal>(Some(claims))
        },
    }
}

/// What a token that was checked comes to.
pub fn grant(checked: Result<MatchClaims, String>, require_player_ports: bool) -> (answer: Result<
    Option<MatchClaims>,
    Refusal,
>)
    ensures
        granted(checked, require_player_ports, answer),
{
    match checked {
        Err(why) => Err(refuse_for(401, "invalid token: ", why.as_str())),
        Ok(claims) => if require_player_ports && claims.allowed_ports.len() == 0 {
            Err(refuse(403, "player token has no assigned ports"))
        } else {
            Ok(Some(claims))
        },
    }
}

pub fn authorize_claims<F: Fn(&Vec<u8>) -> Result<MatchClaims, String>>(
    auth: &AuthConfig,
    token: Option<&str>,
    require_player_ports: bool,
    now_unix_ms: u64,
    parse: F,
) -> (answer: Result<Option<MatchClaims>, Refusal>)
    requires
        forall|payload: &Vec<u8>| #[trigger] parse.requires((payload,)),
    ensures
        access_outcome(*auth, token, require_player_ports, now_unix_ms, parse, answer),
{
    let token = match token {
        Some(t) => t,
        None => {
            if !auth.require_auth {
                return Ok(None);
            }
            return Err(refuse(401, "missing token"));
        },
    };
    let secret = match &auth.secret {
        Some(s) => s,
        None => return Err(refuse(500, "auth secret not configured")),
    };
    let checked = validate_match_token(token, secret.as_slice(), now_unix_ms, parse);
    grant(checked, require_player_ports)
}

/// What asking to watch answers, at `now_unix_ms`.
pub fn authorize_stream_claims_at<F: Fn(&Vec<u8>) -> Result<MatchClaims, String>>(
    auth: &AuthConfig,
    token: Option<&str>,
    now_unix_ms: u64,
    parse: F,
) -> (answer: Result<Option<MatchClaims>, Refusal>)
    requires
        forall|payload: &Vec<u8>| #[trigger] parse.requires((payload,)),
    ensures
        access_outcome(*auth, token, false, now_unix_ms, parse, answer),
{
    authorize_claims(auth, token, false, now_unix_ms, parse)
}

/// What asking to watch answers.
pub fn authorize_stream_claims<F: Fn(&Vec<u8>) -> Result<MatchClaims, String>>(
    auth: &AuthConfig,
    token: Option<&str>,
    parse: F,
) -> (answer: Result<Option<MatchClaims>, Refusal>)
    requires
        forall|payload: &Vec<u8>| #[trigger] parse.requires((payload,)),
    ensures
        exists|now: u64| #[trigger] access_outcome(*auth, token, false, now, parse, answer),
{
    authorize_claims(auth, token, false, now_unix_ms(), parse)
}

/// What asking to play answers: as watching, but for players with ports only.
pub open spec fn input_access_outcome<F: Fn(&Vec<u8>) -> Result<MatchClaims, String>>(
    auth: AuthConfig,
    token: Option<&str>,
    now_unix_ms: u64,
    parse: F,
    answer: Result<Option<MatchClaims>, Refusal>,
) -> bool {
    exists|access: Result<Option<MatchClaims>, Refusal>| #[trigger]
        access_outcome(auth, token, true, now_unix_ms, parse, access) && (match access {
            Ok(Some(claims)) => if claims.role != MatchRole::Player {
                answer is Err && refuses(answer->Err_0, 403, "input requires player role"@)
            } else {
                answer == access
            },
            _ => answer == access,
        })
}

/// What asking to play answers, at `now_unix_ms`.
pub fn authorize_input_claims_at<F: Fn(&Vec<u8>) -> Result<MatchClaims, String>>(
    auth: &AuthConfig,
    token: Option<&str>,
    now_unix_ms: u64,
    parse: F,
) -> (answer: Result<Option<MatchClaims>, Refusal>)
    requires
        forall|payload: &Vec<u8>| #[trigger] parse.requires((payload,)),
    ensures
        input_access_outcome(*auth, token, now_unix_ms, parse, answer),
{
    let access = authorize_claims(auth, token, true, now_unix_ms, parse);
    match access {
        Ok(Some(claims)) => {
            if claims.role != MatchRole::Player {
                Err(refuse(403, "input requires player role"))
            } else {
                Ok(Some(claims))
            }
        },
        other => other,
    }
}

/// What asking to play answers.
pub fn authorize_input_claims<F: Fn(&Vec<u8>) -> Result<MatchClaims, String>>(
    auth: &AuthConfig,
    token: Option<&str>,
    parse: F,
) -> (answer: Result<Option<MatchClaims>, Refusal>)
    requires
        forall|payload: &Vec<u8>| #[trigger] parse.requires((payload,)),
    ensures
        exists|now: u64| #[trigger] input_access_outcome(*auth, token, now, parse, answer),
{
    authorize_input_claims_at(auth, token, now_unix_ms(), parse)
}

/// The name of a client's input source: the player's, or that of the kind of
/// connection, and the client's number.
pub open spec fn source_name(claims: Option<MatchClaims>, kind: Seq<char>, client_id: u64) -> Seq<
    char,
> {
    match claims {
        Some(c) => c.player_id@ + "-"@ + text::decimal(client_id as nat),
        None => kind + "-"@ + text::decimal(client_id as nat),
    }
}

pub fn source_id_for(claims: &Option<MatchClaims>, kind: &str, client_id: u64) -> (id: String)
    ensures
        id@ == source_name(*claims, kind@, client_id),
{
    let mut id = match claims {
        Some(c) => c.player_id.clone(),
        None => kind.to_owned(),
    };
    id.append("-");
    text::push_decimal(&mut id, client_id);
    id
}

fn holds(ports: &[u32], port: u32) -> (has: bool)
    ensures
        has == ports@.contains(port),
{
    let mut i: usize = 0;
    while i < ports.len()
        invariant
            i <= ports@.len(),
            forall|j: int| 0 <= j < i ==> #[trigger] ports@[j] != port,
        decreases ports@.len() - i,
    {
        if ports[i] == port {
            return true;
        }
        i += 1;
    }
    false
}

pub open spec fn port_refused(port: u32) -> Seq<char> {
    "port "@ + text::decimal(port as nat) + " not assigned to this player"@
}

/// Whether a client may use a port: one that has been assigned ports uses only
/// those.
pub open spec fn usable(owned_ports: Seq<u32>, port: u32) -> bool {
    owned_ports.len() == 0 || owned_ports.contains(port)
}

pub fn may_use(owned_ports: &[u32], port: u32) -> (may: bool)
    ensures
        may == usable(owned_ports@, port),
{
    owned_ports.len() == 0 || holds(owned_ports, port)
}

/// Why a message is turned down, if so.
pub open spec fn message_refusal(
    ports: PortsModel,
    source_id: Seq<char>,
    owned_ports: Seq<u32>,
    allow_input: bool,
    message: ClientMessage,
) -> Option<Seq<char>> {
    match message {
        ClientMessage::Input { port, sequence, update } => if !allow_input {
            Some("input requires player role"@)
        } else if !usable(owned_ports, port) {
            Some(port_refused(port))
        } else if owned_ports.len() > 0 && !registry::owns(ports, source_id, port) {
            Some("source no longer owns port "@ + text::decimal(port as nat))
        } else {
            None
        },
        ClientMessage::Command { command, port, slot, sequence } => if !allow_input {
            Some("commands require player role"@)
        } else if !usable(owned_ports, port) {
            Some(port_refused(port))
        } else if command == ClientCommand::SaveState && (slot is None || slot->0 == 0) {
            Some("save state requires a slot number"@)
        } else if command == ClientCommand::LoadState && (slot is None || slot->0 == 0) {
            Some("load state requires a slot number"@)
        } else {
            None
        },
        ClientMessage::Ping { client_time_ms } => None,
    }
}

pub open spec fn acknowledges(reply: ServerMessage, sequence: Option<u64>, now_ms: u64) -> bool {
    reply == (ServerMessage::Ack { sequence, server_time_ms: now_ms })
}

pub open spec fn complains(reply: ServerMessage, message: Seq<char>) -> bool {
    reply is Error && reply->message@ == message
}

/// What a command for the runtime does and is answered.
pub open spec fn runtime_outcome(
    before: ManagerState,
    command: RuntimeCommand,
    refusal: Seq<char>,
    context: Seq<char>,
    sequence: Option<u64>,
    now_ms: u64,
    after: ManagerState,
    reply: ServerMessage,
) -> bool {
    exists|answer: Result<(), String>| #[trigger]
        session::asked(before, command, refusal, after, answer) && (match answer {
            Ok(()) => acknowledges(reply, sequence, now_ms),
            Err(why) => complains(reply, context + why@),
        })
}

/// What a message does and is answered. One that is turned down changes nothing.
pub open spec fn message_outcome(
    hub: HubModel,
    ports: PortsModel,
    runtime: ManagerState,
    now_ns: u128,
    now_ms: u64,
    source_id: Seq<char>,
    owned_ports: Seq<u32>,
    allow_input: bool,
    parsed: Result<ClientMessage, String>,
    hub_after: HubModel,
    runtime_after: ManagerState,
    reply: ServerMessage,
) -> bool {
    match parsed {
        Err(why) => {
            &&& hub_after == hub
            &&& runtime_after == runtime
            &&& complains(reply, "invalid message: "@ + why@)
        },
        Ok(message) => match message_refusal(ports, source_id, owned_ports, allow_input, message) {
            Some(why) => {
                &&& hub_after == hub
                &&& runtime_after == runtime
                &&& complains(reply, why)
            },
            None => match message {
                ClientMessage::Input { port, sequence, update } => {
                    &&& hub_after == input::applied(hub, now_ns, port, source_id, update)
                    &&& runtime_after == runtime
                    &&& acknowledges(reply, sequence, now_ms)
                },
                ClientMessage::Command { command, port, slot, sequence } => match command {
                    ClientCommand::InsertCoin => {
                        &&& hub_after == input::pulsed(
                            hub,
                            now_ns,
                            port,
                            source_id,
                            Button::Select,
                        )
                        &&& runtime_after == runtime
                        &&& acknowledges(reply, sequence, now_ms)
                    },
                    ClientCommand::Reset => hub_after == hub && runtime_outcome(
                        runtime,
                        RuntimeCommand::Reset,
                        "no active runtime to reset"@,
                        "reset failed: "@,
                        sequence,
                        now_ms,
                        runtime_after,
                        reply,
                    ),
                    ClientCommand::SaveState => hub_after == hub && runtime_outcome(
                        runtime,
                        RuntimeCommand::SaveState { slot: slot->0 },
                        "no active runtime to save a state from"@,
                        "save state failed: "@,
                        sequence,
                        now_ms,
                        runtime_after,
                        reply,
                    ),
                    ClientCommand::LoadState => hub_after == hub && runtime_outcome(
                        runtime,
                        RuntimeCommand::LoadState { slot: slot->0 },
                        "no active runtime to load a state into"@,
                        "load state failed: "@,
                        sequence,
                        now_ms,
                        runtime_after,
                        reply,
                    ),
                },
                ClientMessage::Ping { client_time_ms } => {
                    &&& hub_after == hub
                    &&& runtime_after == runtime
                    &&& acknowledges(reply, None, now_ms)
                },
            },
        },
    }
}

pub fn complain(message: &str) -> (reply: ServerMessage)
    ensures
        complains(reply, message@),
{
    ServerMessage::Error { message: message.to_owned() }
}

pub fn complain_port(head: &str, port: u32, tail: &str) -> (reply: ServerMessage)
    ensures
        complains(reply, head@ + text::decimal(port as nat) + tail@),
{
    let mut message = head.to_owned();
    text::push_decimal(&mut message, port as u64);
    message.append(tail);
    ServerMessage::Error { message }
}

/// The answer to a command for the runtime.
fn runtime_reply(
    answer: Result<(), String>,
    context: &str,
    sequence: Option<u64>,
    now_ms: u64,
) -> (reply: ServerMessage)
    ensures
        match answer {
            Ok(()) => acknowledges(reply, sequence, now_ms),
            Err(why) => complains(reply, context@ + why@),
        },
{
    match answer {
        Ok(()) => ServerMessage::Ack { sequence, server_time_ms: now_ms },
        Err(why) => {
            let mut message = context.to_owned();
            message.append(why.as_str());
            ServerMessage::Error { message }
        },
    }
}

/// Does what a client's message asks for and answers it, at the given times.
/// `parsed` is the message, or what is wrong with its text.
pub fn process_input_payload_at(
    hub: &mut InputHub,
    registry: &InputSessionRegistry,
    sessions: &mut SessionManager,
    now_ns: u128,
    now_ms: u64,
    source_id: &str,
    owned_ports: &[u32],
    allow_input: bool,
    parsed: Result<ClientMessage, String>,
) -> (reply: ServerMessage)
    requires
        old(hub).wf(),
        now_ns <= MAX_DURATION_NS,
    ensures
        final(hub).wf(),
        final(hub).clock == old(hub).clock,
        final(sessions).defaults == old(sessions).defaults,
        message_outcome(
            old(hub)@,
            registry@,
            old(sessions).state,
            now_ns,
            now_ms,
            source_id@,
            owned_ports@,
            allow_input,
            parsed,
            final(hub)@,
            final(sessions).state,
            reply,
        ),
{
    let message = match parsed {
        Ok(message) => message,
        Err(why) => {
            let mut text = "invalid message: ".to_owned();
            text.append(why.as_str());
            return ServerMessage::Error { message: text };
        },
    };
    match message {
        ClientMessage::Input { port, sequence, update } => {
            if !allow_input {
                return complain("input requires player role");
            }
            if owned_ports.len() > 0 {
                if !holds(owned_ports, port) {
                    return complain_port("port ", port, " not assigned to this player");
                }
                if !registry.is_source_owner(source_id, port) {
                    let mut text = "source no longer owns port ".to_owned();
                    text::push_decimal(&mut text, port as u64);
                    return ServerMessage::Error { message: text };
                }
            }
            hub.apply_update_at(now_ns, port, source_id, &update);
            ServerMessage::Ack { sequence, server_time_ms: now_ms }
        },
        ClientMessage::Command { command, port, slot, sequence } => {
            if !allow_input {
                return complain("commands require player role");
            }
            if !may_use(owned_ports, port) {
                return complain_port("port ", port, " not assigned to this player");
            }
            let slot: u8 = match slot {
                Some(n) => n,
                None => 0,
            };
            match command {
                ClientCommand::InsertCoin => {
                    hub.pulse_button_at(now_ns, port, source_id, Button::Select);
                    ServerMessage::Ack { sequence, server_time_ms: now_ms }
                },
                ClientCommand::Reset => {
                    let answer = sessions.request_reset();
                    runtime_reply(answer, "reset failed: ", sequence, now_ms)
                },
                ClientCommand::SaveState => {
                    if slot == 0 {
                        return complain("save state requires a slot number");
                    }
                    let answer = sessions.request_save_state(slot);
                    runtime_reply(answer, "save state failed: ", sequence, now_ms)
                },
                ClientCommand::LoadState => {
                    if slot == 0 {
                        return complain("load state requires a slot number");
                    }
                    let answer = sessions.request_load_state(slot);
                    runtime_reply(answer, "load state failed: ", sequence, now_ms)
                },
            }
        },
        ClientMessage::Ping { client_time_ms } => {
            ServerMessage::Ack { sequence: None, server_time_ms: now_ms }
        },
    }
}

/// Does what a client's message asks for and answers it.
pub fn process_input_payload(
    hub: &mut InputHub,
    registry: &InputSessionRegistry,
    sessions: &mut SessionManager,
    source_id: &str,
    owned_ports: &[u32],
    allow_input: bool,
    parsed: Result<ClientMessage, String>,
) -> (reply: ServerMessage)
    requires
        old(hub).wf(),
    ensures
        final(hub).wf(),
        final(hub).clock == old(hub).clock,
        final(sessions).defaults == old(sessions).defaults,
        exists|now_ns: u128, now_ms: u64| #[trigger]
            message_outcome(
                old(hub)@,
                registry@,
                old(sessions).state,
                now_ns,
                now_ms,
                source_id@,
                owned_ports@,
                allow_input,
                parsed,
                final(hub)@,
                final(sessions).state,
                reply,
            ),
{
    let now_ns: u128 = hub.clock.now_ns();
    let now_ms: u64 = now_unix_ms();
    process_input_payload_at(
        hub,
        registry,
        sessions,
        now_ns,
        now_ms,
        source_id,
        owned_ports,
        allow_input,
        parsed,
    )
}

/// A message that is answered with an error has changed nothing.
pub proof fn law_error_changes_nothing(
    hub: HubModel,
    ports: PortsModel,
    runtime: ManagerState,
    now_ns: u128,
    now_ms: u64,
    source_id: Seq<char>,
    owned_ports: Seq<u32>,
    allow_input: bool,
    parsed: Result<ClientMessage, String>,
    hub_after: HubModel,
    runtime_after: ManagerState,
    reply: ServerMessage,
)
    requires
        message_outcome(
            hub,
            ports,
            runtime,
            now_ns,
            now_ms,
            source_id,
            owned_ports,
            allow_input,
            parsed,
            hub_after,
            runtime_after,
            reply,
        ),
        reply is Error,
    ensures
        hub_after == hub,
        runtime_after == runtime,
{
}

/// A client touches only its own source, and on assigned ports only: the input
/// of every other source and port stays as it was.
pub proof fn law_input_stays_apart(
    hub: HubModel,
    ports: PortsModel,
    runtime: ManagerState,
    now_ns: u128,
    now_ms: u64,
    source_id: Seq<char>,
    owned_ports: Seq<u32>,
    allow_input: bool,
    parsed: Result<ClientMessage, String>,
    hub_after: HubModel,
    runtime_after: ManagerState,
    reply: ServerMessage,
    key: (u32, Seq<char>),
)
    requires
        message_outcome(
            hub,
            ports,
            runtime,
            now_ns,
            now_ms,
            source_id,
            owned_ports,
            allow_input,
            parsed,
            hub_after,
            runtime_after,
            reply,
        ),
        key.1 != source_id || !usable(owned_ports, key.0) || !allow_input,
    ensures
        hub_after.sources.contains_key(key) <==> hub.sources.contains_key(key),
        hub.sources.contains_key(key) ==> hub_after.sources[key] == hub.sources[key],
{
}

} // verus!
