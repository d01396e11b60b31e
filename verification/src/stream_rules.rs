//! How a stream comes about and how input comes in over a connection, step by
//! step.

use vstd::prelude::*;

use crate::auth::{MatchClaims, MatchRole};
use crate::input::HubModel;
use crate::peers;
use crate::peers::{
    ChannelMessage, InputAction, InputEvent, InputSession, PeerState, SessionCleanup, WebRtcAction, WebRtcEvent,
    WebRtcSession, WebRtcStage,
};
use crate::registry::PortsModel;
use crate::server;
use crate::server::{AuthConfig, Refusal, WebRtcOffer};
use crate::server_rules;
use crate::session::ManagerState;
use crate::text;
use crate::protocol::ServerMessage;
use crate::ws;
use crate::ws::{ReadOutcome, StreamAction, StreamEvent};

verus! {

/// Whether an event says that what was asked for has been done.
pub open spec fn went_well(event: WebRtcEvent) -> bool {
    match event {
        WebRtcEvent::Connected { outcome, media } => outcome is Ok && media,
        WebRtcEvent::VideoAttached { outcome } => outcome is Ok,
        WebRtcEvent::AudioAttached { outcome } => outcome is Ok,
        WebRtcEvent::ChannelAsked => true,
        WebRtcEvent::Negotiated { outcome } => outcome is Ok,
    }
}

/// A stream is opened in this order: the connection, the picture, the sound, the
/// input channel where input is allowed, and the answer, which carries the text that
/// was negotiated. When it has been given there is nothing to undo any more.
pub proof fn law_stream_comes_about<P>(
    before: WebRtcSession,
    hub: HubModel,
    ports: PortsModel,
    connections: Map<u64, P>,
    now: u128,
    window_ns: u128,
    event: WebRtcEvent,
    after: WebRtcSession,
    hub_after: HubModel,
    ports_after: PortsModel,
    connections_after: Map<u64, P>,
    action: WebRtcAction,
)
    requires
        peers::webrtc_outcome(
            before,
            hub,
            ports,
            connections,
            now,
            window_ns,
            event,
            after,
            hub_after,
            ports_after,
            connections_after,
            action,
        ),
        went_well(event),
    ensures
        hub_after == hub,
        ports_after == ports,
        connections_after == connections,
        after.owned_ports == before.owned_ports,
        after.input_allowed == before.input_allowed,
        before.stage == WebRtcStage::Connecting && event is Connected ==> action is AttachVideo
            && after.stage == WebRtcStage::AttachingVideo,
        before.stage == WebRtcStage::AttachingVideo && event is VideoAttached
            ==> action is AttachAudio && after.stage == WebRtcStage::AttachingAudio,
        before.stage == WebRtcStage::AttachingAudio && event is AudioAttached
            && before.input_allowed ==> action is OpenChannel && after.stage
            == WebRtcStage::OpeningChannel,
        before.stage == WebRtcStage::AttachingAudio && event is AudioAttached
            && !before.input_allowed ==> action is Negotiate && after.stage
            == WebRtcStage::Negotiating,
        before.stage == WebRtcStage::OpeningChannel && event is ChannelAsked ==> action is Negotiate
            && after.stage == WebRtcStage::Negotiating,
        before.stage == WebRtcStage::Negotiating && event is Negotiated ==> {
            &&& after.stage == WebRtcStage::Live
            &&& !after.cleanup.armed
            &&& action is Answer
            &&& action->answer.kind@ == "answer"@
            &&& action->answer.sdp@ == event->Negotiated_outcome->Ok_0@
        },
        !(before.stage == WebRtcStage::Negotiating && event is Negotiated) ==> after.cleanup
            == before.cleanup,
        before.stage == WebRtcStage::Live || before.stage == WebRtcStage::Over ==> action is Nothing
            && after.stage == before.stage,
{
}

/// A step that fails is answered with status 500 and what went wrong; the
/// connection is let go of, and its source is forgotten.
pub proof fn law_stream_fails<P>(
    before: WebRtcSession,
    hub: HubModel,
    ports: PortsModel,
    connections: Map<u64, P>,
    now: u128,
    window_ns: u128,
    event: WebRtcEvent,
    after: WebRtcSession,
    hub_after: HubModel,
    ports_after: PortsModel,
    connections_after: Map<u64, P>,
    action: WebRtcAction,
    port: u32,
)
    requires
        peers::webrtc_outcome(
            before,
            hub,
            ports,
            connections,
            now,
            window_ns,
            event,
            after,
            hub_after,
            ports_after,
            connections_after,
            action,
        ),
        !went_well(event),
        ({
            ||| before.stage == WebRtcStage::Connecting && event is Connected
            ||| before.stage == WebRtcStage::AttachingVideo && event is VideoAttached
            ||| before.stage == WebRtcStage::AttachingAudio && event is AudioAttached
            ||| before.stage == WebRtcStage::Negotiating && event is Negotiated
        }),
    ensures
        after.stage == WebRtcStage::Over,
        action is Refuse,
        action->refusal.status == 500,
        event is Connected && event->Connected_outcome is Err ==> action->refusal.message@
            == "failed to create peer connection: "@ + event->Connected_outcome->Err_0@,
        event is VideoAttached ==> action->refusal.message@
            == "failed to attach gstreamer video track: "@ + event->VideoAttached_outcome->Err_0@,
        event is AudioAttached ==> action->refusal.message@
            == "failed to attach gstreamer audio track: "@ + event->AudioAttached_outcome->Err_0@,
        event is Negotiated ==> action->refusal.message@ == event->Negotiated_outcome->Err_0@,
        !connections_after.contains_key(before.cleanup.session_id),
        forall|id: u64|
            id != before.cleanup.session_id ==> (#[trigger] connections_after.contains_key(id)
                <==> connections.contains_key(id)),
        after.cleanup.cleaned,
        !before.cleanup.cleaned ==> !hub_after.sources.contains_key(
            (port, before.cleanup.source_id@),
        ),
{
}

/// Whether an offer is taken and by whom: only what says that it is one; and the
/// stream of a client is numbered and named after the client. Players get all of
/// their ports and may send input, watchers get none and may not, and where no
/// token is brought input is free.
pub proof fn law_stream_is_given<F: Fn(&Vec<u8>) -> Result<MatchClaims, String>>(
    auth: AuthConfig,
    ports: PortsModel,
    next_client_id: u64,
    offer: WebRtcOffer,
    token: Option<&str>,
    now_ns: u128,
    now_ms: u64,
    parse: F,
    ports_after: PortsModel,
    next_after: u64,
    answer: Result<WebRtcSession, Refusal>,
)
    requires
        peers::webrtc_open_outcome(
            auth,
            ports,
            next_client_id,
            offer,
            token,
            now_ns,
            now_ms,
            parse,
            ports_after,
            next_after,
            answer,
        ),
    ensures
        offer.kind@ != "offer"@ ==> answer is Err && answer->Err_0.status == 400
            && answer->Err_0.message@ == "sdp type must be offer"@ && ports_after == ports
            && next_after == next_client_id,
        token is None && auth.require_auth ==> answer is Err && ports_after == ports
            && next_after == next_client_id,
        token is None && !auth.require_auth && offer.kind@ == "offer"@ ==> {
            &&& answer is Ok
            &&& answer->Ok_0.input_allowed
            &&& answer->Ok_0.owned_ports@.len() == 0
            &&& answer->Ok_0.cleanup.source_id@ == "rtc"@ + "-"@ + text::decimal(
                next_client_id as nat,
            )
            &&& ports_after == ports
        },
        answer is Ok ==> {
            let session = answer->Ok_0;
            &&& session.stage == WebRtcStage::Connecting
            &&& session.cleanup.session_id == next_client_id
            &&& session.cleanup.armed
            &&& !session.cleanup.cleaned
            &&& next_client_id < u64::MAX ==> next_after == next_client_id + 1
            &&& !session.input_allowed ==> session.owned_ports@.len() == 0 && ports_after == ports
            &&& forall|p: u32| #[trigger]
                session.owned_ports@.contains(p) ==> ports_after.contains_key(p)
                    && ports_after[p].source_id == session.cleanup.source_id@
                    && ports_after[p].reconnect_until is None
        },
{
}

/// By claims: a player may send input for all of the player's ports, anybody else
/// who came with claims may not, and whoever came without any may for every port.
pub proof fn law_claims_say_what_a_stream_may(
    claims: Option<MatchClaims>,
    client_id: u64,
    session: WebRtcSession,
)
    requires
        peers::webrtc_opened(claims, client_id, session),
    ensures
        claims is None ==> session.input_allowed && session.owned_ports@.len() == 0,
        claims is Some && claims->0.role == MatchRole::Player ==> session.input_allowed
            && session.owned_ports@ == claims->0.allowed_ports@,
        claims is Some && claims->0.role != MatchRole::Player ==> !session.input_allowed
            && session.owned_ports@.len() == 0,
        claims is Some ==> session.cleanup.source_id@ == claims->0.player_id@ + "-"@
            + text::decimal(client_id as nat),
        claims is None ==> session.cleanup.source_id@ == "rtc"@ + "-"@ + text::decimal(
            client_id as nat,
        ),
{
}

/// A connection that brings input is named after its player, or "ws", and its
/// client, and has the ports that the player was assigned.
pub proof fn law_claims_say_what_a_connection_may(
    claims: Option<MatchClaims>,
    client_id: u64,
    session: InputSession,
)
    requires
        peers::input_opened(claims, client_id, session),
    ensures
        claims is None ==> session.player_id is None && session.owned_ports@.len() == 0
            && session.source_id@ == "ws"@ + "-"@ + text::decimal(client_id as nat),
        claims is Some ==> session.player_id is Some && session.player_id->0@
            == claims->0.player_id@ && session.owned_ports@ == claims->0.allowed_ports@
            && session.source_id@ == claims->0.player_id@ + "-"@ + text::decimal(client_id as nat),
{
}

/// Whether a hub knows of a source what an update says, as of `now`, and of all
/// other sources what it knew before.
pub open spec fn noted(
    hub: HubModel,
    now_ns: u128,
    port: u32,
    source_id: Seq<char>,
    update: crate::input::InputUpdate,
    hub_after: HubModel,
) -> bool {
    &&& port < 8 ==> {
        let known = hub_after.sources[(port, source_id)];
        &&& hub_after.sources.contains_key((port, source_id))
        &&& known.updated_at == now_ns
        &&& forall|a: int|
            0 <= a < 6 && #[trigger] update.axes.at(a) is Some ==> known.axes[a]
                == update.axes.at(a)->0
        &&& forall|b: int|
            0 <= b < 16 && #[trigger] update.buttons.at(b) is Some ==> known.buttons[b]
                == update.buttons.at(b)->0
    }
    &&& forall|key: (u32, Seq<char>)|
        key != (port, source_id) ==> (#[trigger] hub_after.sources.contains_key(key)
            <==> hub.sources.contains_key(key)) && hub_after.sources[key] == hub.sources[key]
    &&& hub_after.pulses == hub.pulses
}

/// A record that comes over a stream's input channel is noted for its port and
/// the stream's source, where input is allowed and the port is the client's, and is
/// not answered; elsewhere it does nothing. A record has 34 bytes.
pub proof fn law_record_over_a_channel(
    session: WebRtcSession,
    hub: HubModel,
    ports: PortsModel,
    runtime: ManagerState,
    now_ns: u128,
    now_ms: u64,
    opened_by_client: bool,
    message: ChannelMessage,
    hub_after: HubModel,
    runtime_after: ManagerState,
    reply: Option<ServerMessage>,
)
    requires
        peers::channel_outcome(
            session,
            hub,
            ports,
            runtime,
            now_ns,
            now_ms,
            opened_by_client,
            message,
            hub_after,
            runtime_after,
            reply,
        ),
        message.len == 34,
    ensures
        reply is None,
        runtime_after == runtime,
        message.record is None || !session.input_allowed || !server_rules::among(
            session.owned_ports@,
            message.record->0.port,
        ) ==> hub_after == hub,
        message.record is Some && session.input_allowed && server_rules::among(
            session.owned_ports@,
            message.record->0.port,
        ) ==> noted(
            hub,
            now_ns,
            message.record->0.port,
            session.cleanup.source_id@,
            message.record->0.update,
            hub_after,
        ),
{
    if message.record is Some {
        lemma_among(session.owned_ports@, message.record->0.port);
    }
}

proof fn lemma_among(owned_ports: Seq<u32>, port: u32)
    ensures
        server_rules::among(owned_ports, port) == server::usable(owned_ports, port),
{
    if owned_ports.contains(port) {
        let i = choose|i: int| 0 <= i < owned_ports.len() && owned_ports[i] == port;
        assert(owned_ports[i] == port);
    }
}

/// What is no record is a text: it is answered as a message of the stream's
/// source. Bytes that are no text are complained of on a channel that the client
/// opened.
pub proof fn law_text_over_a_channel(
    session: WebRtcSession,
    hub: HubModel,
    ports: PortsModel,
    runtime: ManagerState,
    now_ns: u128,
    now_ms: u64,
    opened_by_client: bool,
    message: ChannelMessage,
    hub_after: HubModel,
    runtime_after: ManagerState,
    reply: Option<ServerMessage>,
)
    requires
        peers::channel_outcome(
            session,
            hub,
            ports,
            runtime,
            now_ns,
            now_ms,
            opened_by_client,
            message,
            hub_after,
            runtime_after,
            reply,
        ),
        message.len != 34,
    ensures
        message.parsed is Some ==> reply is Some && server::message_outcome(
            hub,
            ports,
            runtime,
            now_ns,
            now_ms,
            session.cleanup.source_id@,
            session.owned_ports@,
            session.input_allowed,
            message.parsed->0,
            hub_after,
            runtime_after,
            reply->0,
        ),
        message.parsed is None ==> hub_after == hub && runtime_after == runtime,
        message.parsed is None && !opened_by_client ==> reply is None,
        message.parsed is None && opened_by_client ==> reply is Some && reply->0 is Error
            && reply->0->message@ == "binary messages must be UTF-8 JSON"@,
{
}

/// A record that comes over a connection is noted for its port and the
/// connection's source and acknowledged by its number, where the port is the
/// player's; else it is complained of and does nothing.
pub proof fn law_record_over_a_connection(
    session: InputSession,
    hub: HubModel,
    ports: PortsModel,
    runtime: ManagerState,
    now_ns: u128,
    now_ms: u64,
    event: InputEvent,
    hub_after: HubModel,
    runtime_after: ManagerState,
    action: InputAction,
)
    requires
        peers::input_outcome(
            session,
            hub,
            ports,
            runtime,
            now_ns,
            now_ms,
            event,
            hub_after,
            runtime_after,
            action,
        ),
        event is Binary,
        event->len == 34,
        event->record is Some,
    ensures
        runtime_after == runtime,
        action is Reply,
        ({
            let record = event->record->0;
            let reply = action->Reply_reply;
            if server_rules::among(session.owned_ports@, record.port) {
                &&& noted(
                    hub,
                    now_ns,
                    record.port,
                    session.source_id@,
                    record.update,
                    hub_after,
                )
                &&& reply == (ServerMessage::Ack {
                    sequence: Some(record.sequence as u64),
                    server_time_ms: now_ms,
                })
            } else {
                &&& hub_after == hub
                &&& reply is Error
                &&& reply->message@ == "port "@ + text::decimal(record.port as nat)
                    + " not assigned to this player"@
            }
        }),
{
    lemma_among(session.owned_ports@, event->record->0.port);
}

/// What else comes over a connection: a text is a message of a player; a ping is
/// sent back with its own bytes; what ends the connection ends it. None but a text
/// changes anything.
pub proof fn law_rest_over_a_connection(
    session: InputSession,
    hub: HubModel,
    ports: PortsModel,
    runtime: ManagerState,
    now_ns: u128,
    now_ms: u64,
    event: InputEvent,
    hub_after: HubModel,
    runtime_after: ManagerState,
    action: InputAction,
)
    requires
        peers::input_outcome(
            session,
            hub,
            ports,
            runtime,
            now_ns,
            now_ms,
            event,
            hub_after,
            runtime_after,
            action,
        ),
        !(event is Binary && event->len == 34 && event->record is Some),
    ensures
        event is Ping ==> action is PongOrEnd && action->PongOrEnd_payload@
            == event->Ping_payload@,
        event is Pong ==> action is GoOn,
        event is Closed || event is Broken ==> action is End,
        !(event is Text) && !(event is Binary) ==> hub_after == hub && runtime_after == runtime,
        event is Text ==> action is ReplyOrEnd && server::message_outcome(
            hub,
            ports,
            runtime,
            now_ns,
            now_ms,
            session.source_id@,
            session.owned_ports@,
            true,
            event->Text_parsed,
            hub_after,
            runtime_after,
            action->ReplyOrEnd_reply,
        ),
        event is Binary && event->Binary_parsed is Some ==> action is ReplyOrEnd
            && server::message_outcome(
            hub,
            ports,
            runtime,
            now_ns,
            now_ms,
            session.source_id@,
            session.owned_ports@,
            true,
            event->Binary_parsed->0,
            hub_after,
            runtime_after,
            action->ReplyOrEnd_reply,
        ),
        event is Binary && event->Binary_parsed is None ==> hub_after == hub && runtime_after
            == runtime && action is Reply && action->Reply_reply is Error,
{
}

/// A connection is over for good exactly where it has failed or was closed.
pub proof fn law_over_for_good(state: PeerState)
    ensures
        state == PeerState::Failed ==> peers::is_over(state),
        state == PeerState::Closed ==> peers::is_over(state),
        state == PeerState::New ==> !peers::is_over(state),
        state == PeerState::Connecting ==> !peers::is_over(state),
        state == PeerState::Connected ==> !peers::is_over(state),
        state == PeerState::Disconnected ==> !peers::is_over(state),
        state == PeerState::Unspecified ==> !peers::is_over(state),
{
}

/// A source that is gone leaves nothing at any port, and the ports that it had are
/// its player's for as long as the window: from `now` to the end of it.
pub proof fn law_window_of_a_gone_source(
    hub: HubModel,
    ports: PortsModel,
    now: u128,
    source_id: Seq<char>,
    window_ns: u128,
    hub_after: HubModel,
    ports_after: PortsModel,
    port: u32,
)
    requires
        now + window_ns <= u128::MAX,
        peers::source_gone(hub, ports, now, source_id, window_ns, hub_after, ports_after),
        ports.contains_key(port),
        ports[port].source_id == source_id,
        ports[port].reconnect_until is None,
    ensures
        !hub_after.sources.contains_key((port, source_id)),
        hub_after.pulses == hub.pulses,
        ports_after.contains_key(port),
        ports_after[port].player_id == ports[port].player_id,
        ports_after[port].reconnect_until is Some,
        ports_after[port].reconnect_until->0 == now + window_ns,
{
}

/// Only an answer that this side has settled on is given, as it is.
pub proof fn law_settled_answer_is_given(
    local: Option<crate::streaming::LocalDescription>,
    answer: Result<crate::peers::WebRtcAnswer, String>,
)
    requires
        crate::streaming::settled(local, answer),
    ensures
        answer is Ok <==> local is Some && local->0.is_answer,
        answer is Ok ==> answer->Ok_0.sdp@ == local->0.sdp@ && answer->Ok_0.kind@ == "answer"@,
        local is None ==> answer->Err_0@ == "local description unavailable"@,
{
}

/// A stream of packets sends on each packet as it is and each ping back with its own
/// bytes; it ends with its source or its client, and with nothing else.
pub proof fn law_packets_are_sent_on(event: StreamEvent, action: StreamAction)
    requires
        ws::stream_outcome(event, action),
    ensures
        action is SendOrEnd <==> event is Packet && event->Packet_packet is Some,
        action is SendOrEnd ==> action->SendOrEnd_packet@ == event->Packet_packet->0@,
        action is PongOrEnd <==> event is Ping,
        action is PongOrEnd ==> action->PongOrEnd_payload@ == event->Ping_payload@,
        action is End <==> event is SourceClosed || event is Closed || event is Broken,
{
}


/// A frame takes a second over as many as are wanted, rounded down: that many frames
/// fit into a second, and would not if each took a millisecond more. At no rate it
/// takes a second.
pub proof fn law_frames_fit_a_second(fps: u32)
    ensures
        fps > 0 ==> ws::frame_time(fps) * fps <= 1000 < (ws::frame_time(fps) + 1) * fps,
        fps == 0 ==> ws::frame_time(fps) == 1000,
        ws::frame_time(fps) >= 0,
{
    if fps > 0 {
        let n = fps as int;
        let t = 1000int / n;
        assert(t * n <= 1000 < (t + 1) * n && t >= 0) by (nonlinear_arith)
            requires
                n > 0,
                t == 1000int / n,
        ;
    }
}

/// What is left of a frame's time is waited for, and nothing once it has gone by.
pub proof fn law_frames_are_waited_for(frame: u128, elapsed: u128)
    ensures
        elapsed <= frame ==> elapsed + ws::pause_left(frame, elapsed) == frame,
        elapsed >= frame ==> ws::pause_left(frame, elapsed) == 0,
{
}

/// A stream ends once its client has closed it, and with no other read.
pub proof fn law_streams_end_when_closed(outcome: ReadOutcome)
    ensures
        ws::survives(outcome) <==> outcome == ReadOutcome::Message || outcome
            == ReadOutcome::NothingYet || outcome == ReadOutcome::OtherError,
{
}


/// A connection that has failed or was closed is let go of, and nothing more is taken
/// from its source; every other connection stays, and so does everything in any other
/// state.
pub proof fn law_gone_connection_is_let_go<P>(
    before: WebRtcSession,
    hub: HubModel,
    ports: PortsModel,
    connections: Map<u64, P>,
    now: u128,
    window_ns: u128,
    state: PeerState,
    after: WebRtcSession,
    hub_after: HubModel,
    ports_after: PortsModel,
    connections_after: Map<u64, P>,
    id: u64,
    port: u32,
)
    requires
        peers::connection_outcome(
            before,
            hub,
            ports,
            connections,
            now,
            window_ns,
            state,
            after,
            hub_after,
            ports_after,
            connections_after,
        ),
    ensures
        state == PeerState::Failed || state == PeerState::Closed ==> {
            &&& !connections_after.contains_key(before.cleanup.session_id)
            &&& !before.cleanup.cleaned ==> !hub_after.sources.contains_key(
                (port, before.cleanup.source_id@),
            )
            &&& before.cleanup.cleaned ==> hub_after == hub && ports_after == ports
            &&& after.cleanup.cleaned
        },
        id != before.cleanup.session_id ==> (connections_after.contains_key(id)
            <==> connections.contains_key(id)),
        id != before.cleanup.session_id && connections.contains_key(id) ==> connections_after[id]
            == connections[id],
        state != PeerState::Failed && state != PeerState::Closed ==> after == before && hub_after
            == hub && ports_after == ports && connections_after == connections,
        after.owned_ports == before.owned_ports,
        after.input_allowed == before.input_allowed,
        after.stage == before.stage,
        after.cleanup.session_id == before.cleanup.session_id,
        after.cleanup.source_id@ == before.cleanup.source_id@,
{
}

/// At the end of a request that came to nothing its connection is let go of and its
/// source forgotten; one that came to something leaves all as it is.
pub proof fn law_request_is_over<P>(
    before: SessionCleanup,
    hub: HubModel,
    ports: PortsModel,
    connections: Map<u64, P>,
    now: u128,
    window_ns: u128,
    after: SessionCleanup,
    hub_after: HubModel,
    ports_after: PortsModel,
    connections_after: Map<u64, P>,
    port: u32,
)
    requires
        peers::finishes(
            before,
            hub,
            ports,
            connections,
            now,
            window_ns,
            after,
            hub_after,
            ports_after,
            connections_after,
        ),
    ensures
        before.armed ==> !connections_after.contains_key(before.session_id) && after.cleaned,
        after.session_id == before.session_id && after.source_id@ == before.source_id@,
        after.armed == before.armed,
        before.armed && !before.cleaned ==> !hub_after.sources.contains_key(
            (port, before.source_id@),
        ),
        before.armed && before.cleaned ==> hub_after == hub && ports_after == ports,
        !before.armed ==> hub_after == hub && ports_after == ports && connections_after
            == connections && after == before,
{
}

/// Each connection that brings input gets a number of its own: the next client gets
/// another one. Who may not come gets none.
pub proof fn law_connection_is_opened(
    next: u64,
    access: Result<Option<MatchClaims>, Refusal>,
    after: u64,
    answer: Result<InputSession, Refusal>,
)
    requires
        peers::input_open_outcome(next, access, after, answer),
    ensures
        answer is Ok <==> access is Ok,
        access is Err ==> answer->Err_0 == access->Err_0 && after == next,
        access is Ok ==> after != next,
        access is Ok && next < u64::MAX ==> after == next + 1,
        access is Ok && access->Ok_0 is None ==> answer->Ok_0.source_id@ == "ws"@ + "-"@
            + text::decimal(next as nat),
        access is Ok && access->Ok_0 is Some ==> answer->Ok_0.owned_ports@
            == access->Ok_0->0.allowed_ports@,
{
}


/// A player's ports are reserved when the connection starts: all of them, or the
/// player is told why not. Whoever came without a token reserves nothing.
pub proof fn law_ports_at_the_start(
    session: InputSession,
    ports: PortsModel,
    now: u128,
    ports_after: PortsModel,
    refused: Option<ServerMessage>,
    port: u32,
)
    requires
        peers::start_outcome(session, ports, now, ports_after, refused),
    ensures
        session.player_id is None ==> ports_after == ports && refused is None,
        session.player_id is Some && refused is None && session.owned_ports@.contains(port)
            ==> ports_after.contains_key(port) && ports_after[port].player_id
            == session.player_id->0@ && ports_after[port].source_id == session.source_id@,
        refused is Some ==> refused->0 is Error,
{
    if session.player_id is Some {
        let reserved = choose|reserved: Result<(), String>| #[trigger]
            crate::registry::reserve_outcome(
                ports,
                now,
                session.owned_ports@,
                session.player_id->0@,
                session.source_id@,
                ports_after,
                reserved,
            ) && match reserved {
                Ok(()) => refused is None,
                Err(why) => refused is Some && server::complains(refused->0, why@),
            };
        crate::access_rules::law_ports_are_reserved(
            ports,
            now,
            session.owned_ports@,
            session.player_id->0@,
            session.source_id@,
            ports_after,
            reserved,
            port,
        );
    }
}


} // verus!
