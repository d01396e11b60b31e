//! The connections of players and watchers, from the request that opens one to
//! the moment it is gone.

use std::collections::HashMap;

use vstd::prelude::*;

use crate::auth::{MatchClaims, MatchRole};
use crate::clock::MAX_DURATION_NS;
use crate::input;
use crate::input::{HubModel, InputHub};
use crate::protocol;
use crate::protocol::{decode_input_binary, ClientMessage, InputBinary, ServerMessage, INPUT_BINARY_SIZE};
use crate::registry;
use crate::registry::{InputSessionRegistry, PortsModel};
use crate::server;
use crate::server::{
    authorize_claims, authorize_input_claims_at, complain, complain_port, may_use, process_input_payload_at, refuse,
    refuse_for, source_id_for, AuthConfig, Refusal, WebRtcOffer,
};
use crate::session::{ManagerState, SessionManager};
use crate::text;

verus! {

/// What is left once a source is gone: none of its input, and its ports kept for
/// its player until the window has passed.
pub open spec fn source_gone(
    hub: HubModel,
    ports: PortsModel,
    now: u128,
    source_id: Seq<char>,
    window_ns: u128,
    hub_after: HubModel,
    ports_after: PortsModel,
) -> bool {
    &&& hub_after == input::without_source(hub, source_id)
    &&& ports_after == registry::released(
        registry::still_held(ports, now),
        source_id,
        (now + window_ns) as u128,
    )
}

/// Forgets a source that is gone, at `now`.
pub fn cleanup_input_source_at(
    hub: &mut InputHub,
    registry: &mut InputSessionRegistry,
    now: u128,
    source_id: &str,
    window_ns: u128,
)
    requires
        old(hub).wf(),
        now + window_ns <= u128::MAX,
    ensures
        final(hub).wf(),
        final(hub).clock == old(hub).clock,
        final(registry).clock == old(registry).clock,
        source_gone(
            old(hub)@,
            old(registry)@,
            now,
            source_id@,
            window_ns,
            final(hub)@,
            final(registry)@,
        ),
{
    hub.remove_source(source_id);
    registry.mark_disconnected_at(now, source_id, window_ns);
}

/// Forgets a source that is gone.
pub fn cleanup_input_source(
    hub: &mut InputHub,
    registry: &mut InputSessionRegistry,
    source_id: &str,
    window_ns: u128,
)
    requires
        old(hub).wf(),
        window_ns <= MAX_DURATION_NS,
    ensures
        final(hub).wf(),
        final(hub).clock == old(hub).clock,
        final(registry).clock == old(registry).clock,
        exists|now: u128|
            now <= MAX_DURATION_NS && #[trigger] source_gone(
                old(hub)@,
                old(registry)@,
                now,
                source_id@,
                window_ns,
                final(hub)@,
                final(registry)@,
            ),
{
    let now: u128 = registry.clock.now_ns();
    cleanup_input_source_at(hub, registry, now, source_id, window_ns);
}

/// Forgets a source that is gone, at `now`, unless that was done before.
pub fn cleanup_input_source_once_at(
    hub: &mut InputHub,
    registry: &mut InputSessionRegistry,
    cleaned: &mut bool,
    now: u128,
    source_id: &str,
    window_ns: u128,
)
    requires
        old(hub).wf(),
        now + window_ns <= u128::MAX,
    ensures
        final(hub).wf(),
        final(hub).clock == old(hub).clock,
        final(registry).clock == old(registry).clock,
        *final(cleaned),
        if *old(cleaned) {
            final(hub)@ == old(hub)@ && final(registry)@ == old(registry)@
        } else {
            source_gone(
                old(hub)@,
                old(registry)@,
                now,
                source_id@,
                window_ns,
                final(hub)@,
                final(registry)@,
            )
        },
{
    if *cleaned {
        return;
    }
    *cleaned = true;
    cleanup_input_source_at(hub, registry, now, source_id, window_ns);
}

/// Forgets a source that is gone, unless that was done before.
pub fn cleanup_input_source_once(
    hub: &mut InputHub,
    registry: &mut InputSessionRegistry,
    cleaned: &mut bool,
    source_id: &str,
    window_ns: u128,
)
    requires
        old(hub).wf(),
        window_ns <= MAX_DURATION_NS,
    ensures
        final(hub).wf(),
        final(hub).clock == old(hub).clock,
        final(registry).clock == old(registry).clock,
        *final(cleaned),
        if *old(cleaned) {
            final(hub)@ == old(hub)@ && final(registry)@ == old(registry)@
        } else {
            exists|now: u128|
                now <= MAX_DURATION_NS && #[trigger] source_gone(
                    old(hub)@,
                    old(registry)@,
                    now,
                    source_id@,
                    window_ns,
                    final(hub)@,
                    final(registry)@,
                )
        },
{
    let now: u128 = registry.clock.now_ns();
    cleanup_input_source_once_at(hub, registry, cleaned, now, source_id, window_ns);
}

/// A source that is gone presses nothing and has no port, and no other source
/// notices: its input stays, and so does each port that is still somebody's.
pub proof fn law_gone_source_leaves_nothing(
    hub: HubModel,
    ports: PortsModel,
    now: u128,
    source_id: Seq<char>,
    window_ns: u128,
    hub_after: HubModel,
    ports_after: PortsModel,
)
    requires
        source_gone(hub, ports, now, source_id, window_ns, hub_after, ports_after),
    ensures
        forall|port: u32| !#[trigger] hub_after.sources.contains_key((port, source_id)),
        forall|port: u32| !#[trigger] registry::owns(ports_after, source_id, port),
        forall|port: u32, other: Seq<char>|
            other != source_id && #[trigger] hub.sources.contains_key((port, other))
                ==> hub_after.sources.contains_key((port, other))
                && hub_after.sources[(port, other)] == hub.sources[(port, other)],
        forall|port: u32, other: Seq<char>|
            other != source_id ==> (#[trigger] registry::owns(ports_after, other, port)
                <==> registry::owns(ports, other, port)),
{
}

/// What is to be undone when a connection is gone, and whether that is still
/// owed.
#[derive(Debug, Clone)]
pub struct SessionCleanup {
    pub source_id: String,
    pub session_id: u64,
    pub cleaned: bool,
    pub armed: bool,
}

/// The cleanup once the source has been forgotten.
pub open spec fn same_cleanup(a: SessionCleanup, b: SessionCleanup) -> bool {
    a.source_id@ == b.source_id@ && a.session_id == b.session_id
}

/// What forgetting the source of a connection does: nothing the second time.
pub open spec fn forgets_source(
    before: SessionCleanup,
    hub: HubModel,
    ports: PortsModel,
    now: u128,
    window_ns: u128,
    after: SessionCleanup,
    hub_after: HubModel,
    ports_after: PortsModel,
) -> bool {
    &&& same_cleanup(after, before)
    &&& after.armed == before.armed
    &&& after.cleaned
    &&& if before.cleaned {
        hub_after == hub && ports_after == ports
    } else {
        source_gone(hub, ports, now, before.source_id@, window_ns, hub_after, ports_after)
    }
}

/// What the end of a request does: what is armed is undone, and nothing else.
pub open spec fn finishes<P>(
    before: SessionCleanup,
    hub: HubModel,
    ports: PortsModel,
    connections: Map<u64, P>,
    now: u128,
    window_ns: u128,
    after: SessionCleanup,
    hub_after: HubModel,
    ports_after: PortsModel,
    connections_after: Map<u64, P>,
) -> bool {
    if before.armed {
        &&& connections_after == connections.remove(before.session_id)
        &&& forgets_source(
            before,
            hub,
            ports,
            now,
            window_ns,
            after,
            hub_after,
            ports_after,
        )
    } else {
        &&& after == before
        &&& hub_after == hub
        &&& ports_after == ports
        &&& connections_after == connections
    }
}

impl SessionCleanup {
    pub fn new(source_id: String, session_id: u64) -> (cleanup: Self)
        ensures
            cleanup.source_id == source_id,
            cleanup.session_id == session_id,
            cleanup.armed,
            !cleanup.cleaned,
    {
        SessionCleanup { source_id, session_id, cleaned: false, armed: true }
    }

    /// From here on there is nothing to undo when the request is over.
    pub fn disarm(&mut self)
        ensures
            *final(self) == (SessionCleanup { armed: false, ..*old(self) }),
    {
        self.armed = false;
    }

    /// Forgets the source, once.
    pub fn forget_source_at(
        &mut self,
        hub: &mut InputHub,
        registry: &mut InputSessionRegistry,
        now: u128,
        window_ns: u128,
    )
        requires
            old(hub).wf(),
            now + window_ns <= u128::MAX,
        ensures
            final(hub).wf(),
            final(hub).clock == old(hub).clock,
            final(registry).clock == old(registry).clock,
            forgets_source(
                *old(self),
                old(hub)@,
                old(registry)@,
                now,
                window_ns,
                *final(self),
                final(hub)@,
                final(registry)@,
            ),
    {
        let source_id = self.source_id.clone();
        cleanup_input_source_once_at(
            hub,
            registry,
            &mut self.cleaned,
            now,
            source_id.as_str(),
            window_ns,
        );
    }

    /// Lets go of the connection and forgets its source, once.
    pub fn drop_session_at<P>(
        &mut self,
        hub: &mut InputHub,
        registry: &mut InputSessionRegistry,
        connections: &mut HashMap<u64, P>,
        now: u128,
        window_ns: u128,
    )
        requires
            old(hub).wf(),
            now + window_ns <= u128::MAX,
        ensures
            final(hub).wf(),
            final(hub).clock == old(hub).clock,
            final(registry).clock == old(registry).clock,
            final(connections)@ == old(connections)@.remove(old(self).session_id),
            forgets_source(
                *old(self),
                old(hub)@,
                old(registry)@,
                now,
                window_ns,
                *final(self),
                final(hub)@,
                final(registry)@,
            ),
    {
        broadcast use vstd::std_specs::hash::group_hash_axioms;

        connections.remove(&self.session_id);
        self.forget_source_at(hub, registry, now, window_ns);
    }

    /// The request is over: what is armed is undone.
    pub fn finish_at<P>(
        &mut self,
        hub: &mut InputHub,
        registry: &mut InputSessionRegistry,
        connections: &mut HashMap<u64, P>,
        now: u128,
        window_ns: u128,
    )
        requires
            old(hub).wf(),
            now + window_ns <= u128::MAX,
        ensures
            final(hub).wf(),
            final(hub).clock == old(hub).clock,
            final(registry).clock == old(registry).clock,
            finishes(
                *old(self),
                old(hub)@,
                old(registry)@,
                old(connections)@,
                now,
                window_ns,
                *final(self),
                final(hub)@,
                final(registry)@,
                final(connections)@,
            ),
    {
        if self.armed {
            self.drop_session_at(hub, registry, connections, now, window_ns);
        }
    }
}

/// Whether a client may play: whoever came without a token, and players.
pub open spec fn may_play(claims: Option<MatchClaims>) -> bool {
    claims is None || claims->0.role == MatchRole::Player
}

/// The ports that a client has been assigned, as far as it may play.
pub open spec fn ports_of(claims: Option<MatchClaims>) -> Seq<u32> {
    if claims is Some && claims->0.role == MatchRole::Player {
        claims->0.allowed_ports@
    } else {
        Seq::empty()
    }
}

/// The number that a client gets, and the one that the next client will get.
fn take_client_id(next_client_id: &mut u64) -> (id: u64)
    ensures
        id == *old(next_client_id),
        *final(next_client_id) == (*old(next_client_id) + 1) % 0x1_0000_0000_0000_0000,
{
    let id: u64 = *next_client_id;
    *next_client_id = if id == u64::MAX {
        0
    } else {
        id + 1
    };
    id
}

/// How far the opening of a stream has come: what is being waited for.
#[derive(Debug, Clone, Copy, PartialEq, Eq, Structural)]
pub enum WebRtcStage {
    Connecting,
    AttachingVideo,
    AttachingAudio,
    OpeningChannel,
    Negotiating,
    Live,
    Over,
}

/// What came of what was waited for.
#[derive(Debug)]
pub enum WebRtcEvent {
    /// There is a connection, or why there is none; and whether there is media
    /// to send.
    Connected { outcome: Result<(), String>, media: bool },
    VideoAttached { outcome: Result<(), String> },
    AudioAttached { outcome: Result<(), String> },
    /// The input channel was asked for. A stream without one is a stream still.
    ChannelAsked,
    Negotiated { outcome: Result<String, String> },
}

/// The answer to an offer.
#[derive(Debug, Clone)]
pub struct WebRtcAnswer {
    pub kind: &'static str,
    pub sdp: String,
}

/// What is to be done next.
#[derive(Debug, Clone)]
pub enum WebRtcAction {
    AttachVideo,
    AttachAudio,
    OpenChannel,
    Negotiate,
    Answer { answer: WebRtcAnswer },
    Refuse { refusal: Refusal },
    Nothing,
}

/// Where an event leads.
pub enum WebRtcTurn {
    On { stage: WebRtcStage },
    Failed { message: Seq<char> },
    Agreed { sdp: Seq<char> },
    Unmoved,
}

/// Where an event leads from a stage. One that was not waited for leads nowhere.
pub open spec fn webrtc_turn(
    stage: WebRtcStage,
    input_allowed: bool,
    event: WebRtcEvent,
) -> WebRtcTurn {
    match (stage, event) {
        (WebRtcStage::Connecting, WebRtcEvent::Connected { outcome, media }) => match outcome {
            Err(why) => WebRtcTurn::Failed {
                message: "failed to create peer connection: "@ + why@,
            },
            Ok(()) => if media {
                WebRtcTurn::On { stage: WebRtcStage::AttachingVideo }
            } else {
                WebRtcTurn::Failed {
                    message: "gstreamer backend selected but runtime was unavailable"@,
                }
            },
        },
        (WebRtcStage::AttachingVideo, WebRtcEvent::VideoAttached { outcome }) => match outcome {
            Err(why) => WebRtcTurn::Failed {
                message: "failed to attach gstreamer video track: "@ + why@,
            },
            Ok(()) => WebRtcTurn::On { stage: WebRtcStage::AttachingAudio },
        },
        (WebRtcStage::AttachingAudio, WebRtcEvent::AudioAttached { outcome }) => match outcome {
            Err(why) => WebRtcTurn::Failed {
                message: "failed to attach gstreamer audio track: "@ + why@,
            },
            Ok(()) => if input_allowed {
                WebRtcTurn::On { stage: WebRtcStage::OpeningChannel }
            } else {
                WebRtcTurn::On { stage: WebRtcStage::Negotiating }
            },
        },
        (WebRtcStage::OpeningChannel, WebRtcEvent::ChannelAsked) => WebRtcTurn::On {
            stage: WebRtcStage::Negotiating,
        },
        (WebRtcStage::Negotiating, WebRtcEvent::Negotiated { outcome }) => match outcome {
            Err(why) => WebRtcTurn::Failed { message: why@ },
            Ok(sdp) => WebRtcTurn::Agreed { sdp: sdp@ },
        },
        _ => WebRtcTurn::Unmoved,
    }
}

/// What is done on the way to a stage.
pub open spec fn leads_to(action: WebRtcAction, stage: WebRtcStage) -> bool {
    match stage {
        WebRtcStage::AttachingVideo => action is AttachVideo,
        WebRtcStage::AttachingAudio => action is AttachAudio,
        WebRtcStage::OpeningChannel => action is OpenChannel,
        WebRtcStage::Negotiating => action is Negotiate,
        _ => false,
    }
}

/// A stream to a browser.
#[derive(Debug, Clone)]
pub struct WebRtcSession {
    pub cleanup: SessionCleanup,
    pub owned_ports: Vec<u32>,
    pub input_allowed: bool,
    pub stage: WebRtcStage,
}

/// What an event does to a stream that is being opened. A failure lets go of the
/// connection and forgets the source, and is answered; an agreement leaves
/// nothing to undo.
pub open spec fn webrtc_outcome<P>(
    before: WebRtcSession,
    hub: HubModel,
    ports: PortsModel,
    connections: Map<u64, P>,
    now: u128,
    window_ns: u128,
    event: WebRtcEvent,
    after: WebRtcSession,
    hub_after: HubModel,
    ports_after: PortsModel,
    connections_after: Map<u64, P>,
    action: WebRtcAction,
) -> bool {
    &&& after.owned_ports == before.owned_ports
    &&& after.input_allowed == before.input_allowed
    &&& match webrtc_turn(before.stage, before.input_allowed, event) {
        WebRtcTurn::Failed { message } => {
            &&& after.stage == WebRtcStage::Over
            &&& connections_after == connections.remove(before.cleanup.session_id)
            &&& forgets_source(
                before.cleanup,
                hub,
                ports,
                now,
                window_ns,
                after.cleanup,
                hub_after,
                ports_after,
            )
            &&& action is Refuse && server::refuses(action->refusal, 500, message)
        },
        turn => {
            &&& hub_after == hub
            &&& ports_after == ports
            &&& connections_after == connections
            &&& match turn {
                WebRtcTurn::On { stage } => {
                    &&& after.cleanup == before.cleanup
                    &&& after.stage == stage
                    &&& leads_to(action, stage)
                },
                WebRtcTurn::Agreed { sdp } => {
                    &&& after.cleanup == (SessionCleanup { armed: false, ..before.cleanup })
                    &&& after.stage == WebRtcStage::Live
                    &&& action is Answer
                    &&& action->answer.kind@ == "answer"@
                    &&& action->answer.sdp@ == sdp
                },
                _ => {
                    &&& after.cleanup == before.cleanup
                    &&& after.stage == before.stage
                    &&& action is Nothing
                },
            }
        },
    }
}

/// The stream that a client with these claims is given.
pub open spec fn webrtc_opened(
    claims: Option<MatchClaims>,
    client_id: u64,
    session: WebRtcSession,
) -> bool {
    &&& session.cleanup.source_id@ == server::source_name(claims, "rtc"@, client_id)
    &&& session.cleanup.session_id == client_id
    &&& session.cleanup.armed
    &&& !session.cleanup.cleaned
    &&& session.input_allowed == may_play(claims)
    &&& session.owned_ports@ == ports_of(claims)
    &&& session.stage == WebRtcStage::Connecting
}

/// What a client with these claims is answered, and what that does to the ports:
/// a player gets a stream only with all of its ports.
pub open spec fn webrtc_admitted(
    claims: Option<MatchClaims>,
    client_id: u64,
    ports: PortsModel,
    now: u128,
    ports_after: PortsModel,
    answer: Result<WebRtcSession, Refusal>,
) -> bool {
    if claims is Some && claims->0.role == MatchRole::Player {
        exists|reserved: Result<(), String>| #[trigger]
            registry::reserve_outcome(
                ports,
                now,
                claims->0.allowed_ports@,
                claims->0.player_id@,
                server::source_name(claims, "rtc"@, client_id),
                ports_after,
                reserved,
            ) && match reserved {
                Ok(()) => answer is Ok && webrtc_opened(claims, client_id, answer->Ok_0),
                Err(why) => answer is Err && server::refuses(answer->Err_0, 409, why@),
            }
    } else {
        &&& ports_after == ports
        &&& answer is Ok
        &&& webrtc_opened(claims, client_id, answer->Ok_0)
    }
}

/// What asking for a stream answers: only an offer is answered, then it is asked
/// whether the client may watch. A player's ports are reserved at once, and where
/// one is being kept for another player there is no stream.
pub open spec fn webrtc_open_outcome<F: Fn(&Vec<u8>) -> Result<MatchClaims, String>>(
    auth: AuthConfig,
    ports: PortsModel,
    next_client_id: u64,
    offer: WebRtcOffer,
    token: Option<&str>,
    now_ns: u128,
    now_unix_ms: u64,
    parse: F,
    ports_after: PortsModel,
    next_after: u64,
    answer: Result<WebRtcSession, Refusal>,
) -> bool {
    if offer.kind@ != "offer"@ {
        &&& answer is Err
        &&& server::refuses(answer->Err_0, 400, "sdp type must be offer"@)
        &&& ports_after == ports
        &&& next_after == next_client_id
    } else {
        exists|access: Result<Option<MatchClaims>, Refusal>| #[trigger]
            server::access_outcome(auth, token, false, now_unix_ms, parse, access)
                && match access {
                Err(refusal) => {
                    &&& answer == Err::<WebRtcSession, Refusal>(refusal)
                    &&& ports_after == ports
                    &&& next_after == next_client_id
                },
                Ok(claims) => {
                    &&& next_after == (next_client_id + 1) % 0x1_0000_0000_0000_0000
                    &&& webrtc_admitted(
                        claims,
                        next_client_id,
                        ports,
                        now_ns,
                        ports_after,
                        answer,
                    )
                },
            }
    }
}

/// Whether a connection in this state is gone for good.
#[derive(Debug, Clone, Copy, PartialEq, Eq, Structural)]
pub enum PeerState {
    New,
    Connecting,
    Connected,
    Disconnected,
    Failed,
    Closed,
    Unspecified,
}

pub open spec fn is_over(state: PeerState) -> bool {
    state == PeerState::Failed || state == PeerState::Closed
}

/// What another state of a connection does: one that is gone is let go of, and its
/// source forgotten.
pub open spec fn connection_outcome<P>(
    before: WebRtcSession,
    hub: HubModel,
    ports: PortsModel,
    connections: Map<u64, P>,
    now: u128,
    window_ns: u128,
    state: PeerState,
    after: WebRtcSession,
    hub_after: HubModel,
    ports_after: PortsModel,
    connections_after: Map<u64, P>,
) -> bool {
    &&& after.owned_ports == before.owned_ports
    &&& after.input_allowed == before.input_allowed
    &&& after.stage == before.stage
    &&& if is_over(state) {
        &&& connections_after == connections.remove(before.cleanup.session_id)
        &&& forgets_source(
            before.cleanup,
            hub,
            ports,
            now,
            window_ns,
            after.cleanup,
            hub_after,
            ports_after,
        )
    } else {
        &&& after == before
        &&& hub_after == hub
        &&& ports_after == ports
        &&& connections_after == connections
    }
}

impl WebRtcSession {
    /// Opens a stream at the given times, or tells why not.
    pub fn open_at<F: Fn(&Vec<u8>) -> Result<MatchClaims, String>>(
        auth: &AuthConfig,
        registry: &mut InputSessionRegistry,
        next_client_id: &mut u64,
        offer: &WebRtcOffer,
        token: Option<&str>,
        now_ns: u128,
        now_unix_ms: u64,
        parse: F,
    ) -> (answer: Result<WebRtcSession, Refusal>)
        requires
            forall|payload: &Vec<u8>| #[trigger] parse.requires((payload,)),
        ensures
            webrtc_open_outcome(
                *auth,
                old(registry)@,
                *old(next_client_id),
                *offer,
                token,
                now_ns,
                now_unix_ms,
                parse,
                final(registry)@,
                *final(next_client_id),
                answer,
            ),
            final(registry).clock == old(registry).clock,
    {
        if !text::same_text(offer.kind.as_str(), "offer") {
            return Err(refuse(400, "sdp type must be offer"));
        }
        let claims = match authorize_claims(auth, token, false, now_unix_ms, parse) {
            Ok(claims) => claims,
            Err(refusal) => return Err(refusal),
        };
        let client_id: u64 = take_client_id(next_client_id);
        let source_id = source_id_for(&claims, "rtc", client_id);
        let mut owned_ports: Vec<u32> = Vec::new();
        let mut input_allowed = true;
        match &claims {
            Some(c) => {
                if c.role == MatchRole::Player {
                    owned_ports = c.allowed_ports.clone();
                    let reserved = registry.reserve_ports_at(
                        now_ns,
                        source_id.as_str(),
                        c.player_id.as_str(),
                        owned_ports.as_slice(),
                        auth.reconnect_window_ns,
                    );
                    match reserved {
                        Ok(()) => {},
                        Err(message) => return Err(Refusal { status: 409, message }),
                    }
                } else {
                    input_allowed = false;
                }
            },
            None => {},
        }
        Ok(
            WebRtcSession {
                cleanup: SessionCleanup::new(source_id, client_id),
                owned_ports,
                input_allowed,
                stage: WebRtcStage::Connecting,
            },
        )
    }

    fn fail_at<P>(
        &mut self,
        hub: &mut InputHub,
        registry: &mut InputSessionRegistry,
        connections: &mut HashMap<u64, P>,
        now: u128,
        window_ns: u128,
        refusal: Refusal,
    ) -> (action: WebRtcAction)
        requires
            old(hub).wf(),
            now + window_ns <= u128::MAX,
        ensures
            final(hub).wf(),
            final(hub).clock == old(hub).clock,
            final(registry).clock == old(registry).clock,
            final(self).owned_ports == old(self).owned_ports,
            final(self).input_allowed == old(self).input_allowed,
            final(self).stage == WebRtcStage::Over,
            final(connections)@ == old(connections)@.remove(old(self).cleanup.session_id),
            forgets_source(
                old(self).cleanup,
                old(hub)@,
                old(registry)@,
                now,
                window_ns,
                final(self).cleanup,
                final(hub)@,
                final(registry)@,
            ),
            action == (WebRtcAction::Refuse { refusal }),
    {
        self.stage = WebRtcStage::Over;
        self.cleanup.drop_session_at(hub, registry, connections, now, window_ns);
        WebRtcAction::Refuse { refusal }
    }

    /// Takes an event at `now` and tells what is to be done next.
    pub fn advance_at<P>(
        &mut self,
        hub: &mut InputHub,
        registry: &mut InputSessionRegistry,
        connections: &mut HashMap<u64, P>,
        now: u128,
        window_ns: u128,
        event: WebRtcEvent,
    ) -> (action: WebRtcAction)
        requires
            old(hub).wf(),
            now + window_ns <= u128::MAX,
        ensures
            final(hub).wf(),
            final(hub).clock == old(hub).clock,
            final(registry).clock == old(registry).clock,
            webrtc_outcome(
                *old(self),
                old(hub)@,
                old(registry)@,
                old(connections)@,
                now,
                window_ns,
                event,
                *final(self),
                final(hub)@,
                final(registry)@,
                final(connections)@,
                action,
            ),
    {
        let refusal = match (self.stage, event) {
            (WebRtcStage::Connecting, WebRtcEvent::Connected { outcome, media }) => match outcome {
                Err(why) => refuse_for(500, "failed to create peer connection: ", why.as_str()),
                Ok(()) => {
                    if media {
                        self.stage = WebRtcStage::AttachingVideo;
                        return WebRtcAction::AttachVideo;
                    }
                    refuse(500, "gstreamer backend selected but runtime was unavailable")
                },
            },
            (WebRtcStage::AttachingVideo, WebRtcEvent::VideoAttached { outcome }) => match outcome {
                Err(why) => refuse_for(
                    500,
                    "failed to attach gstreamer video track: ",
                    why.as_str(),
                ),
                Ok(()) => {
                    self.stage = WebRtcStage::AttachingAudio;
                    return WebRtcAction::AttachAudio;
                },
            },
            (WebRtcStage::AttachingAudio, WebRtcEvent::AudioAttached { outcome }) => match outcome {
                Err(why) => refuse_for(
                    500,
                    "failed to attach gstreamer audio track: ",
                    why.as_str(),
                ),
                Ok(()) => {
                    if self.input_allowed {
                        self.stage = WebRtcStage::OpeningChannel;
                        return WebRtcAction::OpenChannel;
                    }
                    self.stage = WebRtcStage::Negotiating;
                    return WebRtcAction::Negotiate;
                },
            },
            (WebRtcStage::OpeningChannel, WebRtcEvent::ChannelAsked) => {
                self.stage = WebRtcStage::Negotiating;
                return WebRtcAction::Negotiate;
            },
            (WebRtcStage::Negotiating, WebRtcEvent::Negotiated { outcome }) => match outcome {
                Err(why) => Refusal { status: 500, message: why },
                Ok(sdp) => {
                    self.cleanup.disarm();
                    self.stage = WebRtcStage::Live;
                    return WebRtcAction::Answer { answer: WebRtcAnswer { kind: "answer", sdp } };
                },
            },
            _ => return WebRtcAction::Nothing,
        };
        self.fail_at(hub, registry, connections, now, window_ns, refusal)
    }

    /// Notes at `now` that the connection is in another state: one that is gone
    /// is let go of, and its source forgotten.
    pub fn connection_changed_at<P>(
        &mut self,
        hub: &mut InputHub,
        registry: &mut InputSessionRegistry,
        connections: &mut HashMap<u64, P>,
        now: u128,
        window_ns: u128,
        state: PeerState,
    )
        requires
            old(hub).wf(),
            now + window_ns <= u128::MAX,
        ensures
            final(hub).wf(),
            final(hub).clock == old(hub).clock,
            final(registry).clock == old(registry).clock,
            connection_outcome(
                *old(self),
                old(hub)@,
                old(registry)@,
                old(connections)@,
                now,
                window_ns,
                state,
                *final(self),
                final(hub)@,
                final(registry)@,
                final(connections)@,
            ),
    {
        if state == PeerState::Failed || state == PeerState::Closed {
            self.cleanup.drop_session_at(hub, registry, connections, now, window_ns);
        }
    }
}

/// What came over an input channel: how many bytes, the input record in them,
/// if there is one, and the message, if the bytes are text at all.
#[derive(Debug)]
pub struct ChannelMessage {
    pub len: usize,
    pub record: Option<InputBinary>,
    pub parsed: Option<Result<ClientMessage, String>>,
}

/// What a message over an input channel does and is answered. Bytes of the length
/// of a record are one, and get no answer; bytes that are no text get one only on
/// a channel that the client opened.
pub open spec fn channel_outcome(
    session: WebRtcSession,
    hub: HubModel,
    ports: PortsModel,
    runtime: ManagerState,
    now_ns: u128,
    now_ms: u64,
    opened_by_client: bool,
    message: ChannelMessage,
    hub_after: HubModel,
    runtime_after: ManagerState,
    reply: Option<ServerMessage>,
) -> bool {
    if message.len == INPUT_BINARY_SIZE {
        &&& reply is None
        &&& runtime_after == runtime
        &&& hub_after == match message.record {
            Some(bin) => if session.input_allowed && server::usable(
                session.owned_ports@,
                bin.port,
            ) {
                input::applied(hub, now_ns, bin.port, session.cleanup.source_id@, bin.update)
            } else {
                hub
            },
            None => hub,
        }
    } else {
        match message.parsed {
            None => {
                &&& hub_after == hub
                &&& runtime_after == runtime
                &&& if opened_by_client {
                    reply is Some && server::complains(
                        reply->0,
                        "binary messages must be UTF-8 JSON"@,
                    )
                } else {
                    reply is None
                }
            },
            Some(parsed) => {
                &&& reply is Some
                &&& server::message_outcome(
                    hub,
                    ports,
                    runtime,
                    now_ns,
                    now_ms,
                    session.cleanup.source_id@,
                    session.owned_ports@,
                    session.input_allowed,
                    parsed,
                    hub_after,
                    runtime_after,
                    reply->0,
                )
            },
        }
    }
}

impl WebRtcSession {
    /// Takes a message from an input channel at the given times.
    pub fn channel_message_at(
        &self,
        hub: &mut InputHub,
        registry: &InputSessionRegistry,
        sessions: &mut SessionManager,
        now_ns: u128,
        now_ms: u64,
        opened_by_client: bool,
        message: ChannelMessage,
    ) -> (reply: Option<ServerMessage>)
        requires
            old(hub).wf(),
            now_ns <= MAX_DURATION_NS,
        ensures
            final(hub).wf(),
            final(hub).clock == old(hub).clock,
            final(sessions).defaults == old(sessions).defaults,
            channel_outcome(
                *self,
                old(hub)@,
                registry@,
                old(sessions).state,
                now_ns,
                now_ms,
                opened_by_client,
                message,
                final(hub)@,
                final(sessions).state,
                reply,
            ),
    {
        if message.len == INPUT_BINARY_SIZE {
            match message.record {
                Some(bin) => {
                    if self.input_allowed && may_use(self.owned_ports.as_slice(), bin.port) {
                        hub.apply_update_at(
                            now_ns,
                            bin.port,
                            self.cleanup.source_id.as_str(),
                            &bin.update,
                        );
                    }
                },
                None => {},
            }
            return None;
        }
        match message.parsed {
            None => {
                if opened_by_client {
                    Some(complain("binary messages must be UTF-8 JSON"))
                } else {
                    None
                }
            },
            Some(parsed) => Some(
                process_input_payload_at(
                    hub,
                    registry,
                    sessions,
                    now_ns,
                    now_ms,
                    self.cleanup.source_id.as_str(),
                    self.owned_ports.as_slice(),
                    self.input_allowed,
                    parsed,
                ),
            ),
        }
    }
}

/// A connection that brings input.
#[derive(Debug, Clone)]
pub struct InputSession {
    pub source_id: String,
    pub player_id: Option<String>,
    pub owned_ports: Vec<u32>,
}

/// What comes over a connection that brings input.
#[derive(Debug)]
pub enum InputEvent {
    Text { parsed: Result<ClientMessage, String> },
    /// Bytes: how many, the input record in them, if there is one, and the
    /// message, if they are text at all.
    Binary {
        len: usize,
        record: Option<InputBinary>,
        parsed: Option<Result<ClientMessage, String>>,
    },
    Ping { payload: Vec<u8> },
    Pong,
    Closed,
    Broken,
}

/// What is to be done about it.
#[derive(Debug)]
pub enum InputAction {
    /// Send a reply; the connection ends if that fails.
    ReplyOrEnd { reply: ServerMessage },
    /// Send a reply; go on whether or not that fails.
    Reply { reply: ServerMessage },
    /// Send a ping back; the connection ends if that fails.
    PongOrEnd { payload: Vec<u8> },
    GoOn,
    End,
}

/// Who comes with claims, and over which source.
pub open spec fn input_opened(
    claims: Option<MatchClaims>,
    client_id: u64,
    session: InputSession,
) -> bool {
    &&& session.source_id@ == server::source_name(claims, "ws"@, client_id)
    &&& match claims {
        Some(c) => {
            &&& session.player_id is Some
            &&& session.player_id->0@ == c.player_id@
            &&& session.owned_ports@ == c.allowed_ports@
        },
        None => session.player_id is None && session.owned_ports@.len() == 0,
    }
}

/// What a text does to the input and the runtime, and is answered.
pub open spec fn text_outcome(
    session: InputSession,
    hub: HubModel,
    ports: PortsModel,
    runtime: ManagerState,
    now_ns: u128,
    now_ms: u64,
    parsed: Result<ClientMessage, String>,
    hub_after: HubModel,
    runtime_after: ManagerState,
    action: InputAction,
) -> bool {
    &&& action is ReplyOrEnd
    &&& server::message_outcome(
        hub,
        ports,
        runtime,
        now_ns,
        now_ms,
        session.source_id@,
        session.owned_ports@,
        true,
        parsed,
        hub_after,
        runtime_after,
        action->ReplyOrEnd_reply,
    )
}

/// What an event does to the input and the runtime, and is answered. Bytes of the
/// length of an input record are one, if there is one in them; others are a text.
pub open spec fn input_outcome(
    session: InputSession,
    hub: HubModel,
    ports: PortsModel,
    runtime: ManagerState,
    now_ns: u128,
    now_ms: u64,
    event: InputEvent,
    hub_after: HubModel,
    runtime_after: ManagerState,
    action: InputAction,
) -> bool {
    match event {
        InputEvent::Text { parsed } => text_outcome(
            session,
            hub,
            ports,
            runtime,
            now_ns,
            now_ms,
            parsed,
            hub_after,
            runtime_after,
            action,
        ),
        InputEvent::Binary { len, record, parsed } => if len == INPUT_BINARY_SIZE && record is Some {
            let bin = record->0;
            &&& runtime_after == runtime
            &&& action is Reply
            &&& if server::usable(session.owned_ports@, bin.port) {
                &&& hub_after == input::applied(
                    hub,
                    now_ns,
                    bin.port,
                    session.source_id@,
                    bin.update,
                )
                &&& server::acknowledges(action->Reply_reply, Some(bin.sequence as u64), now_ms)
            } else {
                &&& hub_after == hub
                &&& server::complains(action->Reply_reply, server::port_refused(bin.port))
            }
        } else if parsed is Some {
            text_outcome(
                session,
                hub,
                ports,
                runtime,
                now_ns,
                now_ms,
                parsed->0,
                hub_after,
                runtime_after,
                action,
            )
        } else {
            &&& hub_after == hub
            &&& runtime_after == runtime
            &&& action is Reply
            &&& server::complains(
                action->Reply_reply,
                "invalid binary input: "@ + protocol::wrong_length(len),
            )
        },
        InputEvent::Ping { payload } => {
            &&& hub_after == hub
            &&& runtime_after == runtime
            &&& action == (InputAction::PongOrEnd { payload })
        },
        InputEvent::Pong => hub_after == hub && runtime_after == runtime && action is GoOn,
        InputEvent::Closed => hub_after == hub && runtime_after == runtime && action is End,
        InputEvent::Broken => hub_after == hub && runtime_after == runtime && action is End,
    }
}

/// What reserving the ports of a connection does and answers: a player whose
/// ports are not all to be had is told why.
pub open spec fn start_outcome(
    session: InputSession,
    ports: PortsModel,
    now: u128,
    ports_after: PortsModel,
    refused: Option<ServerMessage>,
) -> bool {
    match session.player_id {
        Some(player_id) => exists|reserved: Result<(), String>| #[trigger]
            registry::reserve_outcome(
                ports,
                now,
                session.owned_ports@,
                player_id@,
                session.source_id@,
                ports_after,
                reserved,
            ) && match reserved {
                Ok(()) => refused is None,
                Err(why) => refused is Some && server::complains(refused->0, why@),
            },
        None => ports_after == ports && refused is None,
    }
}

/// What opening a connection that brings input does and answers, by who may come.
pub open spec fn input_open_outcome(
    next_client_id: u64,
    access: Result<Option<MatchClaims>, Refusal>,
    next_client_id_after: u64,
    answer: Result<InputSession, Refusal>,
) -> bool {
    match access {
        Err(refusal) => {
            &&& answer == Err::<InputSession, Refusal>(refusal)
            &&& next_client_id_after == next_client_id
        },
        Ok(claims) => {
            &&& next_client_id_after == (next_client_id + 1) % 0x1_0000_0000_0000_0000
            &&& answer is Ok
            &&& input_opened(claims, next_client_id, answer->Ok_0)
        },
    }
}

impl InputSession {
    /// Opens a connection that brings input at `now_unix_ms`, or tells why not.
    pub fn open_at<F: Fn(&Vec<u8>) -> Result<MatchClaims, String>>(
        auth: &AuthConfig,
        next_client_id: &mut u64,
        token: Option<&str>,
        now_unix_ms: u64,
        parse: F,
    ) -> (answer: Result<InputSession, Refusal>)
        requires
            forall|payload: &Vec<u8>| #[trigger] parse.requires((payload,)),
        ensures
            exists|access: Result<Option<MatchClaims>, Refusal>| #[trigger]
                server::input_access_outcome(*auth, token, now_unix_ms, parse, access)
                    && input_open_outcome(
                    *old(next_client_id),
                    access,
                    *final(next_client_id),
                    answer,
                ),
    {
        let access = authorize_input_claims_at(auth, token, now_unix_ms, parse);
        let claims = match access {
            Ok(claims) => claims,
            Err(refusal) => return Err(refusal),
        };
        let client_id: u64 = take_client_id(next_client_id);
        let source_id = source_id_for(&claims, "ws", client_id);
        let session = match &claims {
            Some(c) => InputSession {
                source_id,
                player_id: Some(c.player_id.clone()),
                owned_ports: c.allowed_ports.clone(),
            },
            None => InputSession { source_id, player_id: None, owned_ports: Vec::new() },
        };
        assert(input_opened(claims, *old(next_client_id), session));
        Ok(session)
    }

    /// Reserves the player's ports at `now`. Where that fails, the reason is sent
    /// and the connection ends.
    pub fn start_at(
        &self,
        registry: &mut InputSessionRegistry,
        now: u128,
        window_ns: u128,
    ) -> (refused: Option<ServerMessage>)
        ensures
            start_outcome(*self, old(registry)@, now, final(registry)@, refused),
            final(registry).clock == old(registry).clock,
    {
        match &self.player_id {
            Some(player_id) => {
                let reserved = registry.reserve_ports_at(
                    now,
                    self.source_id.as_str(),
                    player_id.as_str(),
                    self.owned_ports.as_slice(),
                    window_ns,
                );
                match reserved {
                    Ok(()) => None,
                    Err(message) => Some(ServerMessage::Error { message }),
                }
            },
            None => None,
        }
    }

    fn take_text(
        &self,
        hub: &mut InputHub,
        registry: &InputSessionRegistry,
        sessions: &mut SessionManager,
        now_ns: u128,
        now_ms: u64,
        parsed: Result<ClientMessage, String>,
    ) -> (action: InputAction)
        requires
            old(hub).wf(),
            now_ns <= MAX_DURATION_NS,
        ensures
            final(hub).wf(),
            final(hub).clock == old(hub).clock,
            final(sessions).defaults == old(sessions).defaults,
            text_outcome(
                *self,
                old(hub)@,
                registry@,
                old(sessions).state,
                now_ns,
                now_ms,
                parsed,
                final(hub)@,
                final(sessions).state,
                action,
            ),
    {
        InputAction::ReplyOrEnd {
            reply: process_input_payload_at(
                hub,
                registry,
                sessions,
                now_ns,
                now_ms,
                self.source_id.as_str(),
                self.owned_ports.as_slice(),
                true,
                parsed,
            ),
        }
    }

    /// Takes an event at the given times.
    pub fn take_at(
        &self,
        hub: &mut InputHub,
        registry: &InputSessionRegistry,
        sessions: &mut SessionManager,
        now_ns: u128,
        now_ms: u64,
        event: InputEvent,
    ) -> (action: InputAction)
        requires
            old(hub).wf(),
            now_ns <= MAX_DURATION_NS,
        ensures
            final(hub).wf(),
            final(hub).clock == old(hub).clock,
            final(sessions).defaults == old(sessions).defaults,
            input_outcome(
                *self,
                old(hub)@,
                registry@,
                old(sessions).state,
                now_ns,
                now_ms,
                event,
                final(hub)@,
                final(sessions).state,
                action,
            ),
    {
        match event {
            InputEvent::Text { parsed } => self.take_text(
                hub,
                registry,
                sessions,
                now_ns,
                now_ms,
                parsed,
            ),
            InputEvent::Binary { len, record, parsed } => {
                if len != INPUT_BINARY_SIZE || record.is_none() {
                    if let Some(parsed) = parsed {
                        return self.take_text(hub, registry, sessions, now_ns, now_ms, parsed);
                    }
                }
                let (port, sequence, update) = match decode_input_binary(len, record) {
                    Ok(ClientMessage::Input { port, sequence, update }) => (port, sequence, update),
                    Ok(_) => {
                        return InputAction::Reply {
                            reply: complain("unexpected non-input binary message"),
                        };
                    },
                    Err(why) => {
                        let mut message = "invalid binary input: ".to_owned();
                        message.append(why.as_str());
                        return InputAction::Reply { reply: ServerMessage::Error { message } };
                    },
                };
                if !may_use(self.owned_ports.as_slice(), port) {
                    return InputAction::Reply {
                        reply: complain_port("port ", port, " not assigned to this player"),
                    };
                }
                hub.apply_update_at(now_ns, port, self.source_id.as_str(), &update);
                InputAction::Reply { reply: ServerMessage::Ack { sequence, server_time_ms: now_ms } }
            },
            InputEvent::Ping { payload } => InputAction::PongOrEnd { payload },
            InputEvent::Pong => InputAction::GoOn,
            InputEvent::Closed => InputAction::End,
            InputEvent::Broken => InputAction::End,
        }
    }
}

/// While a port is being kept for another player, whoever asks for it with a
/// token gets no stream, and the port stays kept.
pub proof fn law_kept_port_gives_no_stream(
    claims: MatchClaims,
    client_id: u64,
    ports: PortsModel,
    now: u128,
    port: u32,
    ports_after: PortsModel,
    answer: Result<WebRtcSession, Refusal>,
)
    requires
        claims.role == MatchRole::Player,
        claims.allowed_ports@.contains(port),
        registry::kept_for_another(
            registry::still_held(ports, now),
            port,
            claims.player_id@,
            server::source_name(Some(claims), "rtc"@, client_id),
        ),
        webrtc_admitted(Some(claims), client_id, ports, now, ports_after, answer),
    ensures
        answer is Err,
        answer->Err_0.status == 409,
        ports_after.contains_key(port),
        ports_after[port] == ports[port],
{
    let list = claims.allowed_ports@;
    let i = choose|i: int| 0 <= i < list.len() && list[i] == port;
    assert(list[i] == port);
}

/// While a port is being kept for another player, whoever asks for it with a
/// token gets no input connection, and the port stays kept.
pub proof fn law_kept_port_takes_no_input(
    session: InputSession,
    ports: PortsModel,
    now: u128,
    port: u32,
    ports_after: PortsModel,
    refused: Option<ServerMessage>,
)
    requires
        session.player_id is Some,
        session.owned_ports@.contains(port),
        registry::kept_for_another(
            registry::still_held(ports, now),
            port,
            session.player_id->0@,
            session.source_id@,
        ),
        start_outcome(session, ports, now, ports_after, refused),
    ensures
        refused is Some,
        refused->0 is Error,
        ports_after.contains_key(port),
        ports_after[port] == ports[port],
{
    let list = session.owned_ports@;
    let i = choose|i: int| 0 <= i < list.len() && list[i] == port;
    assert(list[i] == port);
}

/// A stream that fails to open leaves none of its input behind and holds no
/// port, whatever the event was, and the failure is the server's.
pub proof fn law_failed_stream_leaves_nothing<P>(
    before: WebRtcSession,
    hub: HubModel,
    ports: PortsModel,
    connections: Map<u64, P>,
    now: u128,
    window_ns: u128,
    event: WebRtcEvent,
    after: WebRtcSession,
    hub_after: HubModel,
    ports_after: PortsModel,
    connections_after: Map<u64, P>,
    action: WebRtcAction,
)
    requires
        webrtc_outcome(
            before,
            hub,
            ports,
            connections,
            now,
            window_ns,
            event,
            after,
            hub_after,
            ports_after,
            connections_after,
            action,
        ),
        action is Refuse,
        !before.cleanup.cleaned,
    ensures
        action->refusal.status == 500,
        connections_after == connections.remove(before.cleanup.session_id),
        forall|port: u32|
            !#[trigger] hub_after.sources.contains_key((port, before.cleanup.source_id@)),
        forall|port: u32|
            !#[trigger] registry::owns(ports_after, before.cleanup.source_id@, port),
{
    law_gone_source_leaves_nothing(
        hub,
        ports,
        now,
        before.cleanup.source_id@,
        window_ns,
        hub_after,
        ports_after,
    );
}

/// A stream that is agreed on stays: when the request is over, nothing of it is
/// undone.
pub proof fn law_agreed_stream_stays<P>(
    before: WebRtcSession,
    hub: HubModel,
    ports: PortsModel,
    connections: Map<u64, P>,
    now: u128,
    window_ns: u128,
    event: WebRtcEvent,
    after: WebRtcSession,
    hub_after: HubModel,
    ports_after: PortsModel,
    connections_after: Map<u64, P>,
    action: WebRtcAction,
)
    requires
        webrtc_outcome(
            before,
            hub,
            ports,
            connections,
            now,
            window_ns,
            event,
            after,
            hub_after,
            ports_after,
            connections_after,
            action,
        ),
        action is Answer,
    ensures
        !after.cleanup.armed,
        hub_after == hub,
        ports_after == ports,
        connections_after == connections,
{
}

/// However often a source is forgotten, what has come in for it since the first
/// time stays.
pub proof fn law_forgotten_once(
    cleanup: SessionCleanup,
    hub: HubModel,
    ports: PortsModel,
    now: u128,
    window_ns: u128,
    first: SessionCleanup,
    hub_first: HubModel,
    ports_first: PortsModel,
    hub_later: HubModel,
    ports_later: PortsModel,
    later: u128,
    second: SessionCleanup,
    hub_second: HubModel,
    ports_second: PortsModel,
)
    requires
        forgets_source(cleanup, hub, ports, now, window_ns, first, hub_first, ports_first),
        forgets_source(
            first,
            hub_later,
            ports_later,
            later,
            window_ns,
            second,
            hub_second,
            ports_second,
        ),
    ensures
        hub_second == hub_later,
        ports_second == ports_later,
{
}

} // verus!
