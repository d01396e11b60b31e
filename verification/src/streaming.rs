//! How streams are set up, and how requests about sessions, machines and media
//! are answered.

use vstd::prelude::*;
use webrtc::peer_connection::sdp::session_description::RTCSessionDescription;

use crate::arcade::{ArcadeError, Side};
use crate::media::{MediaCapabilities, MediaConfig, MediaRuntimeStatus};
use crate::peers::WebRtcAnswer;
use crate::server;
use crate::server::{refuse, Refusal};
use crate::text;

verus! {

/// The UDP ports that streams use, from the first to the last.
pub const ICE_UDP_PORT_MIN: u16 = 8100;

pub const ICE_UDP_PORT_MAX: u16 = 8110;

/// How H.264 is offered to browsers.
pub const H264_PAYLOAD_TYPE: u8 = 96;

pub const H264_CLOCK_RATE: u32 = 90000;

pub const H264_FMTP_LINE: &'static str =
    "level-asymmetry-allowed=1;packetization-mode=1;profile-level-id=42e01f";

/// The number of the input channel that both sides know of without asking.
pub const INPUT_CHANNEL_ID: u16 = 0;

/// A server that helps two sides to find each other.
#[derive(Debug, Clone)]
pub struct IceServer {
    pub urls: Vec<String>,
    pub username: String,
    pub credential: String,
}

#[verifier::ext_equal]
pub struct IceServerModel {
    pub urls: Seq<Seq<char>>,
    pub username: Seq<char>,
    pub credential: Seq<char>,
}

impl View for IceServer {
    type V = IceServerModel;

    open spec fn view(&self) -> IceServerModel {
        IceServerModel {
            urls: text::texts_view(self.urls@),
            username: self.username@,
            credential: self.credential@,
        }
    }
}

/// The relay that the stream may go through: the one on the inside where there
/// is one, else the public one.
pub open spec fn relay_url(host: Seq<char>, internal: Seq<char>) -> Seq<char> {
    if internal.len() > 0 {
        internal
    } else {
        "turns:"@ + host + ":5349?transport=tcp"@
    }
}

/// The helping servers: two that tell an address, and the relay where there is a
/// credential for it.
pub open spec fn ice_list(credential: Seq<char>, host: Seq<char>, internal: Seq<char>) -> Seq<
    IceServerModel,
> {
    let stun = IceServerModel {
        urls: seq!["stun:stun.l.google.com:19302"@, "stun:stun1.l.google.com:19302"@],
        username: Seq::empty(),
        credential: Seq::empty(),
    };
    if credential.len() == 0 {
        seq![stun]
    } else {
        seq![
            stun,
            IceServerModel {
                urls: seq![relay_url(host, internal)],
                username: "nosebleed"@,
                credential,
            },
        ]
    }
}

pub open spec fn ice_view(servers: Seq<IceServer>) -> Seq<IceServerModel> {
    Seq::new(servers.len(), |i: int| servers[i]@)
}

/// The helping servers for a stream.
pub fn ice_servers(turn_credential: &str, turn_host: &str, turn_url_internal: &str) -> (servers: Vec<
    IceServer,
>)
    ensures
        ice_view(servers@) == ice_list(turn_credential@, turn_host@, turn_url_internal@),
{
    let mut stun_urls: Vec<String> = Vec::new();
    stun_urls.push("stun:stun.l.google.com:19302".to_owned());
    stun_urls.push("stun:stun1.l.google.com:19302".to_owned());
    let stun = IceServer { urls: stun_urls, username: String::new(), credential: String::new() };
    assert(stun@.urls =~= seq![
        "stun:stun.l.google.com:19302"@,
        "stun:stun1.l.google.com:19302"@,
    ]);
    assert(stun@.username =~= Seq::empty());
    assert(stun@.credential =~= Seq::empty());
    let mut servers: Vec<IceServer> = Vec::new();
    servers.push(stun);
    if !text::is_empty(turn_credential) {
        let url = if !text::is_empty(turn_url_internal) {
            turn_url_internal.to_owned()
        } else {
            let mut url = "turns:".to_owned();
            url.append(turn_host);
            url.append(":5349?transport=tcp");
            url
        };
        let mut urls: Vec<String> = Vec::new();
        urls.push(url);
        let relay = IceServer {
            urls,
            username: "nosebleed".to_owned(),
            credential: turn_credential.to_owned(),
        };
        assert(relay@.urls =~= seq![relay_url(turn_host@, turn_url_internal@)]);
        servers.push(relay);
    }
    assert(ice_view(servers@) =~= ice_list(turn_credential@, turn_host@, turn_url_internal@));
    servers
}

/// The steps of agreeing on a stream that can fail.
#[derive(Debug, Clone, Copy, PartialEq, Eq, Structural)]
pub enum NegotiationStep {
    ReadOffer,
    SetRemote,
    CreateAnswer,
    SetLocal,
}

pub open spec fn step_failure(step: NegotiationStep) -> Seq<char> {
    match step {
        NegotiationStep::ReadOffer => "invalid remote offer: "@,
        NegotiationStep::SetRemote => "failed to set remote description: "@,
        NegotiationStep::CreateAnswer => "failed to create answer: "@,
        NegotiationStep::SetLocal => "failed to set local description: "@,
    }
}

/// What is said of a step that failed.
pub fn negotiation_failure(step: NegotiationStep, why: &str) -> (message: String)
    ensures
        message@ == step_failure(step) + why@,
{
    let mut message = match step {
        NegotiationStep::ReadOffer => "invalid remote offer: ".to_owned(),
        NegotiationStep::SetRemote => "failed to set remote description: ".to_owned(),
        NegotiationStep::CreateAnswer => "failed to create answer: ".to_owned(),
        NegotiationStep::SetLocal => "failed to set local description: ".to_owned(),
    };
    message.append(why);
    message
}

/// The `webrtc` crate's description of a stream: carried to the connection that
/// takes it.
#[verifier::external_type_specification]
#[verifier::external_body]
pub struct ExSessionDescription(RTCSessionDescription);

/// The description that a text holds as the offer of a stream, or what is wrong
/// with the text.
pub uninterp spec fn offer_read(sdp: Seq<char>) -> Result<RTCSessionDescription, Seq<char>>;

/// `RTCSessionDescription::offer` of the `webrtc` crate: the description that a
/// text holds, or what is wrong with the text. Both go by the text alone. Which
/// texts hold one, and what is in it, is not claimed.
#[verifier::external_body]
fn parse_offer(sdp: String) -> (offer: Result<RTCSessionDescription, String>)
    ensures
        match offer {
            Ok(description) => offer_read(sdp@) == Ok::<RTCSessionDescription, Seq<char>>(
                description,
            ),
            Err(why) => offer_read(sdp@) == Err::<RTCSessionDescription, Seq<char>>(why@),
        },
{
    RTCSessionDescription::offer(sdp).map_err(|err| err.to_string())
}

/// Reads the text of an offer, or tells what is wrong with it.
pub fn read_offer(sdp: String) -> (offer: Result<RTCSessionDescription, String>)
    ensures
        match offer_read(sdp@) {
            Ok(description) => offer == Ok::<RTCSessionDescription, String>(description),
            Err(why) => offer is Err && offer->Err_0@ == step_failure(NegotiationStep::ReadOffer)
                + why,
        },
{
    match parse_offer(sdp) {
        Ok(description) => Ok(description),
        Err(why) => Err(negotiation_failure(NegotiationStep::ReadOffer, why.as_str())),
    }
}

/// What this side has settled on: whether it is an answer, and its text.
#[derive(Debug, Clone)]
pub struct LocalDescription {
    pub is_answer: bool,
    pub sdp: String,
}

/// What is answered by what this side has settled on.
pub open spec fn settled(
    local: Option<LocalDescription>,
    answer: Result<WebRtcAnswer, String>,
) -> bool {
    match local {
        None => answer is Err && answer->Err_0@ == "local description unavailable"@,
        Some(l) => if l.is_answer {
            answer is Ok && answer->Ok_0.kind@ == "answer"@ && answer->Ok_0.sdp == l.sdp
        } else {
            answer is Err && answer->Err_0@ == "local description was not an answer"@
        },
    }
}

/// The answer in what this side has settled on.
pub fn negotiated_answer(local: Option<LocalDescription>) -> (answer: Result<WebRtcAnswer, String>)
    ensures
        settled(local, answer),
{
    match local {
        None => Err("local description unavailable".to_owned()),
        Some(l) => {
            if !l.is_answer {
                return Err("local description was not an answer".to_owned());
            }
            Ok(WebRtcAnswer { kind: "answer", sdp: l.sdp })
        },
    }
}

/// The status that a session that could not be started is answered with.
pub open spec fn start_status(message: Seq<char>) -> u16 {
    if text::holds_text(message, "already running"@) {
        409
    } else {
        400
    }
}

/// The answer to a session that could not be started: it is in conflict with the
/// one that runs, or the request is bad.
pub fn start_refusal(message: String) -> (refusal: Refusal)
    ensures
        server::refuses(refusal, start_status(message@), message@),
{
    if text::contains(message.as_str(), "already running") {
        Refusal { status: 409, message }
    } else {
        Refusal { status: 400, message }
    }
}

/// The answer to a request about a machine that is turned down.
pub fn arcade_error_response(err: &ArcadeError) -> (refusal: Refusal)
    ensures
        match *err {
            ArcadeError::BadRequest(why) => server::refuses(refusal, 400, why@),
            ArcadeError::NotFound(why) => server::refuses(refusal, 404, why@),
            ArcadeError::Conflict(why) => server::refuses(refusal, 409, why@),
        },
{
    refuse(err.status_code(), err.message())
}

/// What is made of the field of a request that names a side.
pub open spec fn side_answered(
    raw: Seq<char>,
    complaint: Seq<char>,
    side: Result<Side, Refusal>,
) -> bool {
    if text::folded(raw) == "left"@ {
        side == Ok::<Side, Refusal>(Side::Left)
    } else if text::folded(raw) == "right"@ {
        side == Ok::<Side, Refusal>(Side::Right)
    } else {
        side is Err && server::refuses(side->Err_0, 400, complaint)
    }
}

/// The side that a field of a request names.
fn parse_side(raw: &str, complaint: &str) -> (side: Result<Side, Refusal>)
    ensures
        side_answered(raw@, complaint@, side),
{
    match Side::parse(raw) {
        Some(side) => Ok(side),
        None => Err(refuse(400, complaint)),
    }
}

/// The side that a player wants to queue on.
pub fn queue_side(raw: &str) -> (side: Result<Side, Refusal>)
    ensures
        side_answered(raw@, "side must be one of: left, right"@, side),
{
    parse_side(raw, "side must be one of: left, right")
}

/// The side that has won a round.
pub fn winner_side(raw: &str) -> (side: Result<Side, Refusal>)
    ensures
        side_answered(raw@, "winner_side must be one of: left, right"@, side),
{
    parse_side(raw, "winner_side must be one of: left, right")
}

/// Whether what is told of the media is so.
pub open spec fn tells_media(
    capabilities: MediaCapabilities,
    running: Option<MediaRuntimeStatus>,
    told: MediaCapabilities,
) -> bool {
    &&& told.selected_backend == capabilities.selected_backend
    &&& told.gstreamer == capabilities.gstreamer
    &&& told.encoders == capabilities.encoders
    &&& match running {
        Some(status) => told.runtime == status,
        None => {
            &&& told.runtime.backend@ == "gstreamer"@
            &&& told.runtime == (MediaRuntimeStatus {
                backend: told.runtime.backend,
                ..capabilities.runtime
            })
        },
    }
}

/// What is told of the media: what the host can do, and how the pipelines are
/// doing where there are any.
pub fn media_capabilities(
    capabilities: MediaCapabilities,
    config: &MediaConfig,
    running: Option<MediaRuntimeStatus>,
) -> (told: MediaCapabilities)
    ensures
        tells_media(capabilities, running, told),
{
    let mut told = capabilities;
    told.runtime.backend = config.selected_backend.as_str();
    match running {
        Some(status) => {
            told.runtime = status;
        },
        None => {},
    }
    told
}

} // verus!
