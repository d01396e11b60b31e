//! Who is let in and who has which port, said outright.

use vstd::prelude::*;

use crate::auth;
use crate::auth::{MatchClaims, MatchRole};
use crate::registry;
use crate::registry::PortsModel;
use crate::streaming;
use crate::streaming::{IceServer, NegotiationStep};
use crate::text;
use crate::text_rules;

verus! {

/// Whether a text holds anything but white space.
pub open spec fn says_something(s: Seq<char>) -> bool {
    text::trimmed(s).len() > 0
}

/// Claims are accepted exactly where they name a match and a player, have not run
/// out, name no port beyond the eight that there are and give a player one at
/// least. What is accepted has the same role, ports and times, and the names
/// without white space around them.
pub proof fn law_which_claims_hold(
    claims: MatchClaims,
    now_ms: u64,
    answer: Result<MatchClaims, String>,
    port: u32,
)
    requires
        auth::claims_outcome(claims, now_ms, answer),
    ensures
        answer is Ok <==> {
            &&& says_something(claims.match_id@)
            &&& says_something(claims.player_id@)
            &&& now_ms < claims.exp_unix_ms
            &&& forall|i: int|
                0 <= i < claims.allowed_ports@.len() ==> #[trigger] claims.allowed_ports@[i] < 8
            &&& claims.role == MatchRole::Player ==> claims.allowed_ports@.len() > 0
        },
        answer is Ok ==> {
            let out = answer->Ok_0;
            &&& out.match_id@ == text::trimmed(claims.match_id@)
            &&& out.player_id@ == text::trimmed(claims.player_id@)
            &&& out.role == claims.role
            &&& out.exp_unix_ms == claims.exp_unix_ms
            &&& out.iat_unix_ms == claims.iat_unix_ms
            &&& out.allowed_ports@.contains(port) <==> claims.allowed_ports@.contains(port)
            &&& forall|i: int, j: int|
                0 <= i < j < out.allowed_ports@.len() ==> #[trigger] out.allowed_ports@[i]
                    < #[trigger] out.allowed_ports@[j]
        },
        !says_something(claims.match_id@) ==> answer->Err_0@ == "token missing match_id"@,
        says_something(claims.match_id@) && !says_something(claims.player_id@) ==> answer->Err_0@
            == "token missing player_id"@,
        says_something(claims.match_id@) && says_something(claims.player_id@) && now_ms
            >= claims.exp_unix_ms ==> answer->Err_0@ == "token expired"@,
{
}

/// A token opens exactly where both of its parts can be decoded and the second
/// one is the tag of the first under the secret; what it gives is the first one.
pub proof fn law_which_tokens_open(token: Seq<char>, secret: Seq<u8>)
    ensures
        ({
            let parts = auth::token_parts(token);
            let opened = auth::signed_payload(token, secret);
            let (payload, signature) = parts->Ok_0;
            let bytes = auth::base64url_decoded(payload);
            let tag = auth::base64url_decoded(signature);
            &&& opened is Ok <==> parts is Ok && bytes is Ok && tag is Ok && tag->Ok_0
                == auth::hmac_sha256(secret, bytes->Ok_0)
            &&& opened is Ok ==> opened->Ok_0 == bytes->Ok_0
        }),
{
}

/// A token is checked for its signature first: claims are accepted only out of a
/// payload that the secret has signed, and only where they hold.
pub proof fn law_claims_come_signed<F: Fn(&Vec<u8>) -> Result<MatchClaims, String>>(
    token: Seq<char>,
    secret: Seq<u8>,
    now_ms: u64,
    parse: F,
    answer: Result<MatchClaims, String>,
)
    requires
        auth::token_outcome(token, secret, now_ms, parse, answer),
        answer is Ok,
    ensures
        auth::signed_payload(token, secret) is Ok,
        now_ms < answer->Ok_0.exp_unix_ms,
        answer->Ok_0.match_id@.len() > 0,
        answer->Ok_0.player_id@.len() > 0,
        forall|i: int|
            0 <= i < answer->Ok_0.allowed_ports@.len() ==> #[trigger] answer->Ok_0.allowed_ports@[i]
                < 8,
        answer->Ok_0.role == MatchRole::Player ==> answer->Ok_0.allowed_ports@.len() > 0,
        exists|payload: &Vec<u8>, claims: MatchClaims|
            payload@ == auth::signed_payload(token, secret)->Ok_0 && #[trigger] parse.ensures(
                (payload,),
                Ok(claims),
            ) && answer->Ok_0.role == claims.role && answer->Ok_0.exp_unix_ms
                == claims.exp_unix_ms,
{
    let bytes = auth::signed_payload(token, secret)->Ok_0;
    let (payload, found) = choose|payload: &Vec<u8>, found: Result<MatchClaims, String>|
        payload@ == bytes && #[trigger] parse.ensures((payload,), found) && (match found {
            Ok(claims) => auth::claims_outcome(claims, now_ms, answer),
            Err(why) => answer is Err && answer->Err_0@ == "invalid token payload JSON: "@ + why@,
        });
    let claims = found->Ok_0;
    assert(parse.ensures((payload,), Ok(claims)));
    auth::law_accepted_claims(claims, now_ms, answer->Ok_0);
}

/// Whether a port is somebody's at `now`: its source is there, or may still come
/// back.
pub open spec fn taken(ports: PortsModel, port: u32, now: u128) -> bool {
    ports.contains_key(port) && (ports[port].reconnect_until is None
        || ports[port].reconnect_until->0 > now)
}

/// Reserving ports gives every one of them to the player's source, or none where
/// one is kept for another player. A port that is not asked for stays with whom it
/// was, unless the time to come back has passed.
pub proof fn law_ports_are_reserved(
    before: PortsModel,
    now: u128,
    list: Seq<u32>,
    player_id: Seq<char>,
    source_id: Seq<char>,
    after: PortsModel,
    answer: Result<(), String>,
    port: u32,
)
    requires
        registry::reserve_outcome(before, now, list, player_id, source_id, after, answer),
    ensures
        answer is Err <==> exists|i: int|
            0 <= i < list.len() && {
                let p = #[trigger] list[i];
                &&& taken(before, p, now)
                &&& before[p].reconnect_until is Some
                &&& before[p].player_id != player_id
                &&& before[p].source_id != source_id
            },
        answer is Ok && list.contains(port) ==> {
            &&& after.contains_key(port)
            &&& after[port].player_id == player_id
            &&& after[port].source_id == source_id
            &&& after[port].reconnect_until is None
            &&& registry::owns(after, source_id, port)
        },
        answer is Err || !list.contains(port) ==> (after.contains_key(port) <==> taken(
            before,
            port,
            now,
        )) && (after.contains_key(port) ==> after[port] == before[port]),
{
    let ports = registry::still_held(before, now);
    assert forall|p: u32| #[trigger] registry::kept_for_another(ports, p, player_id, source_id) == (
    taken(before, p, now) && before[p].reconnect_until is Some && before[p].player_id != player_id
        && before[p].source_id != source_id) by {
    }
    if answer is Err {
        let i = choose|i: int|
            0 <= i < list.len() && registry::kept_for_another(
                ports,
                #[trigger] list[i],
                player_id,
                source_id,
            );
        assert(taken(before, list[i], now));
    }
    if exists|i: int|
        0 <= i < list.len() && {
            let p = #[trigger] list[i];
            &&& taken(before, p, now)
            &&& before[p].reconnect_until is Some
            &&& before[p].player_id != player_id
            &&& before[p].source_id != source_id
        } {
        let i = choose|i: int|
            0 <= i < list.len() && {
                let p = #[trigger] list[i];
                &&& taken(before, p, now)
                &&& before[p].reconnect_until is Some
                &&& before[p].player_id != player_id
                &&& before[p].source_id != source_id
            };
        assert(registry::kept_for_another(ports, list[i], player_id, source_id));
    }
}

/// Leasing ports is stricter: it gives every one of them, or none where one is
/// another player's or has another source of the player on it.
pub proof fn law_ports_are_leased(
    before: PortsModel,
    now: u128,
    list: Seq<u32>,
    player_id: Seq<char>,
    source_id: Seq<char>,
    after: PortsModel,
    answer: Result<(), String>,
    port: u32,
)
    requires
        registry::lease_outcome(before, now, list, player_id, source_id, after, answer),
        list.contains(port),
    ensures
        taken(before, port, now) && before[port].source_id != source_id && before[port].player_id
            != player_id ==> answer is Err,
        taken(before, port, now) && before[port].source_id != source_id
            && before[port].reconnect_until is None ==> answer is Err,
        answer is Ok ==> {
            &&& after.contains_key(port)
            &&& after[port].player_id == player_id
            &&& after[port].source_id == source_id
            &&& after[port].reconnect_until is None
        },
        list == seq![port] && (!taken(before, port, now) || before[port].source_id == source_id || (
        before[port].player_id == player_id && before[port].reconnect_until is Some)) ==> answer is Ok,
{
    let i = choose|i: int| 0 <= i < list.len() && list[i] == port;
    assert(list[i] == port);
    if list == seq![port] && answer is Err {
        let ports = registry::still_held(before, now);
        let j = choose|j: int| #[trigger]
            registry::first_conflict(ports, list, player_id, source_id, j);
        assert(list[j] == port);
    }
}

/// When a source is gone its ports are its player's until `until`, and no source
/// has them meanwhile; the other ports stay as they are.
pub proof fn law_source_is_gone(ports: PortsModel, source_id: Seq<char>, until: u128, port: u32)
    ensures
        ({
            let after = registry::released(ports, source_id, until);
            &&& after.contains_key(port) <==> ports.contains_key(port)
            &&& ports.contains_key(port) && ports[port].source_id == source_id ==> {
                &&& after[port].player_id == ports[port].player_id
                &&& after[port].source_id == source_id
                &&& after[port].reconnect_until == Some(until)
                &&& !registry::owns(after, source_id, port)
            }
            &&& ports.contains_key(port) && ports[port].source_id != source_id ==> after[port]
                == ports[port]
        }),
{
}

/// A stream may always ask two servers for its address. Where there is a
/// credential it may also go through a relay, by that credential: the one on the
/// inside if there is one, else the public one.
pub proof fn law_helping_servers(
    servers: Seq<IceServer>,
    credential: Seq<char>,
    host: Seq<char>,
    internal: Seq<char>,
)
    requires
        streaming::ice_view(servers) == streaming::ice_list(credential, host, internal),
    ensures
        credential.len() == 0 ==> servers.len() == 1,
        credential.len() > 0 ==> servers.len() == 2,
        servers[0].urls@.len() == 2,
        servers[0].urls@[0]@ == "stun:stun.l.google.com:19302"@,
        servers[0].urls@[1]@ == "stun:stun1.l.google.com:19302"@,
        servers[0].username@.len() == 0,
        servers[0].credential@.len() == 0,
        credential.len() > 0 ==> {
            &&& servers[1].urls@.len() == 1
            &&& servers[1].username@ == "nosebleed"@
            &&& servers[1].credential@ == credential
            &&& internal.len() > 0 ==> servers[1].urls@[0]@ == internal
            &&& internal.len() == 0 ==> servers[1].urls@[0]@ == "turns:"@ + host
                + ":5349?transport=tcp"@
        },
{
    let list = streaming::ice_list(credential, host, internal);
    let seen = streaming::ice_view(servers);
    assert(seen.len() == servers.len());
    assert(seen[0] == servers[0]@);
    assert(servers[0]@.urls.len() == servers[0].urls@.len());
    assert(servers[0]@.urls[0] == servers[0].urls@[0]@);
    assert(servers[0]@.urls[1] == servers[0].urls@[1]@);
    if credential.len() > 0 {
        assert(seen[1] == servers[1]@);
        assert(servers[1]@.urls.len() == servers[1].urls@.len());
        assert(servers[1]@.urls[0] == servers[1].urls@[0]@);
    }
}

/// What is said first of each step that can fail.
pub proof fn law_failed_steps(step: NegotiationStep)
    ensures
        step == NegotiationStep::ReadOffer ==> streaming::step_failure(step)
            == "invalid remote offer: "@,
        step == NegotiationStep::SetRemote ==> streaming::step_failure(step)
            == "failed to set remote description: "@,
        step == NegotiationStep::CreateAnswer ==> streaming::step_failure(step)
            == "failed to create answer: "@,
        step == NegotiationStep::SetLocal ==> streaming::step_failure(step)
            == "failed to set local description: "@,
{
}

/// A token is its payload, a dot and its signature, with or without the version v1
/// and a dot before them. Without any dot its signature is missing.
pub proof fn law_parts_of_a_token(payload: Seq<char>, signature: Seq<char>)
    requires
        forall|i: int| 0 <= i < payload.len() ==> #[trigger] payload[i] != '.',
        forall|i: int| 0 <= i < signature.len() ==> #[trigger] signature[i] != '.',
    ensures
        auth::token_parts(payload + seq!['.'] + signature) == Ok::<
            (Seq<char>, Seq<char>),
            Seq<char>,
        >((payload, signature)),
        auth::token_parts("v1"@ + seq!['.'] + (payload + seq!['.'] + signature)) == Ok::<
            (Seq<char>, Seq<char>),
            Seq<char>,
        >((payload, signature)),
        auth::token_parts(payload) == Err::<(Seq<char>, Seq<char>), Seq<char>>(
            "missing token signature"@,
        ),
{
    let both = payload + seq!['.'] + signature;
    text_rules::law_cut_at_marks(payload, '.', signature);
    text_rules::law_cut_at_marks(signature, '.', signature);
    reveal_strlit("v1");
    assert forall|i: int| 0 <= i < "v1"@.len() implies #[trigger] "v1"@[i] != '.' by {
    }
    text_rules::law_cut_at_marks("v1"@, '.', both);
    assert(text::pieces(both, '.') =~= seq![payload, signature]);
    assert(text::pieces("v1"@ + seq!['.'] + both, '.') =~= seq!["v1"@, payload, signature]);
}

/// A token with more dots, or with another version, is none.
pub proof fn law_other_tokens(version: Seq<char>, a: Seq<char>, b: Seq<char>)
    requires
        version != "v1"@,
        forall|i: int| 0 <= i < version.len() ==> #[trigger] version[i] != '.',
        forall|i: int| 0 <= i < a.len() ==> #[trigger] a[i] != '.',
        forall|i: int| 0 <= i < b.len() ==> #[trigger] b[i] != '.',
    ensures
        auth::token_parts(version + seq!['.'] + (a + seq!['.'] + b)) == Err::<
            (Seq<char>, Seq<char>),
            Seq<char>,
        >("invalid token format"@),
{
    text_rules::law_cut_at_marks(a, '.', b);
    text_rules::law_cut_at_marks(b, '.', b);
    text_rules::law_cut_at_marks(version, '.', a + seq!['.'] + b);
    assert(text::pieces(version + seq!['.'] + (a + seq!['.'] + b), '.') =~= seq![version, a, b]);
}

/// What is wrong with a token is told in these words: first of its payload, then of its
/// signature, and then that the two do not belong together.
pub proof fn law_token_refusals(
    bytes: Seq<u8>,
    tag: Seq<u8>,
    secret: Seq<u8>,
    other: Result<Seq<u8>, Seq<char>>,
    why: Seq<char>,
)
    ensures
        auth::payload_of(Err(why), other, secret) == Err::<Seq<u8>, Seq<char>>(
            "invalid token payload encoding: "@ + why,
        ),
        auth::payload_of(Ok(bytes), Err(why), secret) == Err::<Seq<u8>, Seq<char>>(
            "invalid token signature encoding: "@ + why,
        ),
        tag != auth::hmac_sha256(secret, bytes) ==> auth::payload_of(Ok(bytes), Ok(tag), secret)
            == Err::<Seq<u8>, Seq<char>>(
            "token signature verification failed: "@ + "MAC tag mismatch"@,
        ),
{
}

/// The port that stands in the way is the first one of the list that does, and it is
/// named.
pub proof fn law_port_in_the_way(
    ports: PortsModel,
    list: Seq<u32>,
    player_id: Seq<char>,
    source_id: Seq<char>,
    i: int,
    j: int,
)
    requires
        0 <= j < list.len(),
    ensures
        registry::first_kept(ports, list, player_id, source_id, i) && registry::kept_for_another(
            ports,
            list[j],
            player_id,
            source_id,
        ) ==> i <= j,
        registry::first_conflict(ports, list, player_id, source_id, i) && registry::lease_conflict(
            ports,
            list[j],
            player_id,
            source_id,
        ) is Some ==> i <= j,
        registry::kept_for_another(ports, list[0], player_id, source_id) ==> registry::first_kept(
            ports,
            list,
            player_id,
            source_id,
            0,
        ),
        registry::lease_conflict(ports, list[0], player_id, source_id) is Some
            ==> registry::first_conflict(ports, list, player_id, source_id, 0),
        registry::of_another_player(list[j]) == "port "@ + text::decimal(list[j] as nat)
            + " already assigned to another player"@,
        ports.contains_key(list[j]) && ports[list[j]].source_id != source_id
            && ports[list[j]].player_id == player_id && ports[list[j]].reconnect_until is None
            ==> registry::lease_conflict(ports, list[j], player_id, source_id) == Some(
            "port "@ + text::decimal(list[j] as nat) + " already active for this player"@,
        ),
{
}


/// A port is a source's exactly as long as the source is there: it is held under the
/// source's name, and not just kept for its player.
pub proof fn law_who_has_a_port(ports: PortsModel, a: Seq<char>, b: Seq<char>, port: u32)
    ensures
        registry::owns(ports, a, port) && registry::owns(ports, b, port) ==> a == b,
        ports.contains_key(port) && ports[port].reconnect_until is Some ==> !registry::owns(
            ports,
            a,
            port,
        ),
        ports.contains_key(port) && ports[port].reconnect_until is None ==> registry::owns(
            ports,
            ports[port].source_id,
            port,
        ),
        !ports.contains_key(port) ==> !registry::owns(ports, a, port),
{
}


} // verus!
