//! Match tokens: who may play, where, and until when.

use base64::engine::general_purpose::URL_SAFE_NO_PAD;
use base64::Engine;
use hmac::{Hmac, Mac};
use sha2::Sha256;
use vstd::prelude::*;

use crate::input::MAX_PORTS;
use crate::text;

verus! {

#[derive(Debug, Clone, Copy, PartialEq, Eq, Structural)]
pub enum MatchRole {
    Player,
    Spectator,
    Observer,
}

/// What a token says of its bearer.
#[derive(Debug, Clone)]
pub struct MatchClaims {
    pub match_id: String,
    pub player_id: String,
    pub role: MatchRole,
    pub allowed_ports: Vec<u32>,
    pub exp_unix_ms: u64,
    pub iat_unix_ms: Option<u64>,
}

/// The role of a bearer whose token names none.
pub fn default_role() -> (role: MatchRole)
    ensures
        role == MatchRole::Player,
{
    MatchRole::Player
}

/// The bytes that a text stands for in base64 with the URL-safe alphabet and
/// without padding, or what is wrong with it.
pub uninterp spec fn base64url_decoded(text: Seq<char>) -> Result<Seq<u8>, Seq<char>>;

/// `Engine::decode` of the `base64` crate with `URL_SAFE_NO_PAD`: the bytes, or
/// the text of its error. What it gives depends on the text alone.
#[verifier::external_body]
fn decode_base64url(encoded: &str) -> (decoded: Result<Vec<u8>, String>)
    ensures
        match decoded {
            Ok(bytes) => base64url_decoded(encoded@) == Ok::<Seq<u8>, Seq<char>>(bytes@),
            Err(why) => base64url_decoded(encoded@) == Err::<Seq<u8>, Seq<char>>(why@),
        },
{
    URL_SAFE_NO_PAD.decode(encoded).map_err(|err| err.to_string())
}

/// The HMAC-SHA256 tag of a message under a key.
pub uninterp spec fn hmac_sha256(key: Seq<u8>, message: Seq<u8>) -> Seq<u8>;

/// `Hmac::<Sha256>` of the `hmac` and `sha2` crates, `new_from_slice`, `update`
/// and `verify_slice`: any key is taken, and a tag passes just where it is the
/// one of the message under the key.
#[verifier::external_body]
fn verify_hmac(key: &[u8], message: &[u8], tag: &[u8]) -> (verdict: Result<(), String>)
    ensures
        verdict is Ok <==> tag@ == hmac_sha256(key@, message@),
        verdict is Err ==> verdict->Err_0@ == "MAC tag mismatch"@,
{
    let mut mac = Hmac::<Sha256>::new_from_slice(key).map_err(|err| err.to_string())?;
    mac.update(message);
    mac.verify_slice(tag).map_err(|err| err.to_string())
}

/// The payload and the signature of a token, as they are written: two parts, or
/// three of which the first is the version.
pub open spec fn token_parts(token: Seq<char>) -> Result<(Seq<char>, Seq<char>), Seq<char>> {
    let parts = text::pieces(token, '.');
    if parts.len() < 2 {
        Err("missing token signature"@)
    } else if parts.len() == 2 {
        Ok((parts[0], parts[1]))
    } else if parts.len() == 3 && parts[0] == "v1"@ {
        Ok((parts[1], parts[2]))
    } else {
        Err("invalid token format"@)
    }
}

pub fn split_token(token: &str) -> (parts: Result<(String, String), String>)
    ensures
        match parts {
            Ok((payload, signature)) => token_parts(token@) == Ok::<
                (Seq<char>, Seq<char>),
                Seq<char>,
            >((payload@, signature@)),
            Err(why) => token_parts(token@) == Err::<(Seq<char>, Seq<char>), Seq<char>>(why@),
        },
{
    let list = text::split(token, '.');
    let ghost parts = text::pieces(token@, '.');
    assert(list@.len() == parts.len());
    if list.len() < 2 {
        return Err("missing token signature".to_owned());
    }
    assert(parts[0] == list@[0]@ && parts[1] == list@[1]@);
    if list.len() == 2 {
        return Ok((list[0].clone(), list[1].clone()));
    }
    assert(parts[2] == list@[2]@);
    if list.len() == 3 && text::same_text(list[0].as_str(), "v1") {
        return Ok((list[1].clone(), list[2].clone()));
    }
    Err("invalid token format".to_owned())
}

/// Whether the numbers ascend, none twice.
pub open spec fn ascending(list: Seq<u32>) -> bool {
    forall|i: int, j: int| 0 <= i < j < list.len() ==> #[trigger] list[i] < #[trigger] list[j]
}

/// Whether `out` holds the numbers of `list`, ascending, each once.
pub open spec fn sorted_set(list: Seq<u32>, out: Seq<u32>) -> bool {
    &&& ascending(out)
    &&& forall|n: u32| #[trigger] out.contains(n) <==> list.contains(n)
}

/// The numbers of a list, ascending, each once.
fn sort_dedup(list: &Vec<u32>) -> (out: Vec<u32>)
    ensures
        sorted_set(list@, out@),
{
    let mut out: Vec<u32> = Vec::new();
    let mut i: usize = 0;
    while i < list.len()
        invariant
            i <= list@.len(),
            ascending(out@),
            forall|n: u32| #[trigger] out@.contains(n) <==> list@.take(i as int).contains(n),
        decreases list@.len() - i,
    {
        let n: u32 = list[i];
        let mut at: usize = 0;
        while at < out.len() && out[at] < n
            invariant
                at <= out@.len(),
                forall|j: int| 0 <= j < at ==> #[trigger] out@[j] < n,
            decreases out@.len() - at,
        {
            at += 1;
        }
        let ghost before = out@;
        let ghost seen = list@.take(i as int);
        let ghost next = list@.take(i + 1);
        assert(next =~= seen.push(n));
        if at < out.len() && out[at] == n {
            proof {
                assert(before.contains(n));
                assert forall|m: u32| #[trigger] out@.contains(m) <==> next.contains(m) by {
                    lemma_push_contains(seen, n, m);
                }
            }
        } else {
            out.insert(at, n);
            proof {
                assert forall|m: u32| #[trigger] out@.contains(m) <==> next.contains(m) by {
                    lemma_push_contains(seen, n, m);
                    lemma_insert_contains(before, at as int, n, m);
                }
                assert forall|a: int, b: int| 0 <= a < b < out@.len() implies #[trigger] out@[a]
                    < #[trigger] out@[b] by {
                    let a0 = if a < at { a } else { a - 1 };
                    let b0 = if b < at { b } else { b - 1 };
                    if a != at {
                        assert(out@[a] == before[a0]);
                    }
                    if b != at {
                        assert(out@[b] == before[b0]);
                    }
                    if a == at && at < before.len() && b0 > at {
                        assert(before[at as int] < before[b0]);
                    }
                }
            }
        }
        i += 1;
    }
    assert(list@.take(i as int) =~= list@);
    out
}

proof fn lemma_push_contains(list: Seq<u32>, n: u32, m: u32)
    ensures
        list.push(n).contains(m) <==> (list.contains(m) || m == n),
{
    let longer = list.push(n);
    if longer.contains(m) {
        let i = choose|i: int| 0 <= i < longer.len() && longer[i] == m;
        if i < list.len() {
            assert(list[i] == m);
        }
    }
    if list.contains(m) {
        let i = choose|i: int| 0 <= i < list.len() && list[i] == m;
        assert(longer[i] == m);
    }
    if m == n {
        assert(longer[list.len() as int] == m);
    }
}

proof fn lemma_insert_contains(list: Seq<u32>, at: int, n: u32, m: u32)
    requires
        0 <= at <= list.len(),
    ensures
        list.insert(at, n).contains(m) <==> (list.contains(m) || m == n),
{
    let longer = list.insert(at, n);
    if longer.contains(m) {
        let i = choose|i: int| 0 <= i < longer.len() && longer[i] == m;
        if i < at {
            assert(list[i] == m);
        } else if i > at {
            assert(list[i - 1] == m);
        }
    }
    if list.contains(m) {
        let i = choose|i: int| 0 <= i < list.len() && list[i] == m;
        if i < at {
            assert(longer[i] == m);
        } else {
            assert(longer[i + 1] == m);
        }
    }
    if m == n {
        assert(longer[at] == m);
    }
}

/// Why the claims of a token do not hold at `now`, if so.
pub open spec fn claims_refusal(claims: MatchClaims, now_unix_ms: u64) -> Option<Seq<char>> {
    if text::trimmed(claims.match_id@).len() == 0 {
        Some("token missing match_id"@)
    } else if text::trimmed(claims.player_id@).len() == 0 {
        Some("token missing player_id"@)
    } else if claims.exp_unix_ms <= now_unix_ms {
        Some("token expired"@)
    } else if exists|i: int|
        0 <= i < claims.allowed_ports@.len() && #[trigger] claims.allowed_ports@[i] >= MAX_PORTS {
        Some("token has out-of-range port"@)
    } else if claims.role == MatchRole::Player && claims.allowed_ports@.len() == 0 {
        Some("player token must include at least one allowed port"@)
    } else {
        None
    }
}

/// Whether `out` are the claims with the ids trimmed and the ports in order.
pub open spec fn tidied(claims: MatchClaims, out: MatchClaims) -> bool {
    &&& out.match_id@ == text::trimmed(claims.match_id@)
    &&& out.player_id@ == text::trimmed(claims.player_id@)
    &&& out.role == claims.role
    &&& sorted_set(claims.allowed_ports@, out.allowed_ports@)
    &&& out.exp_unix_ms == claims.exp_unix_ms
    &&& out.iat_unix_ms == claims.iat_unix_ms
}

/// What checking claims answers.
pub open spec fn claims_outcome(
    claims: MatchClaims,
    now_unix_ms: u64,
    answer: Result<MatchClaims, String>,
) -> bool {
    match answer {
        Ok(out) => claims_refusal(claims, now_unix_ms) is None && tidied(claims, out),
        Err(why) => claims_refusal(claims, now_unix_ms) == Some(why@),
    }
}

/// Checks the claims of a token at `now_unix_ms`.
pub fn validate_claims(claims: MatchClaims, now_unix_ms: u64) -> (answer: Result<
    MatchClaims,
    String,
>)
    ensures
        claims_outcome(claims, now_unix_ms, answer),
{
    let match_id = text::trim(claims.match_id.as_str());
    let player_id = text::trim(claims.player_id.as_str());
    if text::is_empty(match_id.as_str()) {
        return Err("token missing match_id".to_owned());
    }
    if text::is_empty(player_id.as_str()) {
        return Err("token missing player_id".to_owned());
    }
    if claims.exp_unix_ms <= now_unix_ms {
        return Err("token expired".to_owned());
    }
    let allowed_ports = sort_dedup(&claims.allowed_ports);
    let ghost given = claims.allowed_ports@;
    let mut i: usize = 0;
    while i < allowed_ports.len()
        invariant
            i <= allowed_ports@.len(),
            given == claims.allowed_ports@,
            sorted_set(given, allowed_ports@),
            text::trimmed(claims.match_id@).len() > 0,
            text::trimmed(claims.player_id@).len() > 0,
            claims.exp_unix_ms > now_unix_ms,
            forall|j: int| 0 <= j < i ==> #[trigger] allowed_ports@[j] < MAX_PORTS,
        decreases allowed_ports@.len() - i,
    {
        if allowed_ports[i] >= MAX_PORTS {
            proof {
                assert(allowed_ports@.contains(allowed_ports@[i as int]));
                assert(given.contains(allowed_ports@[i as int]));
            }
            return Err("token has out-of-range port".to_owned());
        }
        i += 1;
    }
    proof {
        assert forall|k: int| 0 <= k < given.len() implies #[trigger] given[k] < MAX_PORTS by {
            assert(given.contains(given[k]));
            assert(allowed_ports@.contains(given[k]));
        }
        if allowed_ports@.len() == 0 && given.len() > 0 {
            assert(given.contains(given[0]));
            assert(allowed_ports@.contains(given[0]));
        }
        if given.len() == 0 && allowed_ports@.len() > 0 {
            assert(allowed_ports@.contains(allowed_ports@[0]));
            assert(given.contains(allowed_ports@[0]));
        }
    }
    if claims.role == MatchRole::Player && allowed_ports.len() == 0 {
        return Err("player token must include at least one allowed port".to_owned());
    }
    Ok(
        MatchClaims {
            match_id,
            player_id,
            role: claims.role,
            allowed_ports,
            exp_unix_ms: claims.exp_unix_ms,
            iat_unix_ms: claims.iat_unix_ms,
        },
    )
}

/// The payload of a token, where its signature is the secret's, or why not.
pub open spec fn signed_payload(token: Seq<char>, secret: Seq<u8>) -> Result<Seq<u8>, Seq<char>> {
    match token_parts(token) {
        Err(why) => Err(why),
        Ok((payload_part, signature_part)) => payload_of(
            base64url_decoded(payload_part),
            base64url_decoded(signature_part),
            secret,
        ),
    }
}

/// The payload, where both parts could be decoded and the tag is the payload's.
pub open spec fn payload_of(
    payload: Result<Seq<u8>, Seq<char>>,
    signature: Result<Seq<u8>, Seq<char>>,
    secret: Seq<u8>,
) -> Result<Seq<u8>, Seq<char>> {
    match payload {
        Err(why) => Err("invalid token payload encoding: "@ + why),
        Ok(bytes) => match signature {
            Err(why) => Err("invalid token signature encoding: "@ + why),
            Ok(tag) => if tag == hmac_sha256(secret, bytes) {
                Ok(bytes)
            } else {
                Err("token signature verification failed: "@ + "MAC tag mismatch"@)
            },
        },
    }
}

pub open spec fn bytes_answer(answer: Result<Vec<u8>, String>) -> Result<Seq<u8>, Seq<char>> {
    match answer {
        Ok(bytes) => Ok(bytes@),
        Err(why) => Err(why@),
    }
}

fn told(context: &str, why: String) -> (out: String)
    ensures
        out@ == context@ + why@,
{
    let mut out = context.to_owned();
    out.append(why.as_str());
    out
}

/// The payload, from what decoding the two parts of a token gave, where the
/// signature is the secret's.
pub fn check_payload(
    payload: Result<Vec<u8>, String>,
    signature: Result<Vec<u8>, String>,
    secret: &[u8],
) -> (answer: Result<Vec<u8>, String>)
    ensures
        bytes_answer(answer) == payload_of(bytes_answer(payload), bytes_answer(signature), secret@),
{
    let bytes = match payload {
        Ok(bytes) => bytes,
        Err(why) => return Err(told("invalid token payload encoding: ", why)),
    };
    let tag = match signature {
        Ok(tag) => tag,
        Err(why) => return Err(told("invalid token signature encoding: ", why)),
    };
    match verify_hmac(secret, bytes.as_slice(), tag.as_slice()) {
        Ok(()) => Ok(bytes),
        Err(why) => Err(told("token signature verification failed: ", why)),
    }
}

/// The payload of a token, where its signature is the secret's.
pub fn open_token(token: &str, secret: &[u8]) -> (answer: Result<Vec<u8>, String>)
    ensures
        bytes_answer(answer) == signed_payload(token@, secret@),
{
    match split_token(token) {
        Err(why) => Err(why),
        Ok((payload_part, signature_part)) => check_payload(
            decode_base64url(payload_part.as_str()),
            decode_base64url(signature_part.as_str()),
            secret,
        ),
    }
}

/// What checking a token answers: its signature has to be the secret's, `parse`
/// has to find claims in the payload, and these have to hold.
pub open spec fn token_outcome<F: Fn(&Vec<u8>) -> Result<MatchClaims, String>>(
    token: Seq<char>,
    secret: Seq<u8>,
    now_unix_ms: u64,
    parse: F,
    answer: Result<MatchClaims, String>,
) -> bool {
    match signed_payload(token, secret) {
        Err(why) => answer is Err && answer->Err_0@ == why,
        Ok(bytes) => exists|payload: &Vec<u8>, found: Result<MatchClaims, String>|
            payload@ == bytes && #[trigger] parse.ensures((payload,), found) && (match found {
                Ok(claims) => claims_outcome(claims, now_unix_ms, answer),
                Err(why) => answer is Err && answer->Err_0@ == "invalid token payload JSON: "@
                    + why@,
            }),
    }
}

/// Checks a token at `now_unix_ms`. The text of what `parse` finds wrong goes
/// into the answer.
pub fn validate_match_token<F: Fn(&Vec<u8>) -> Result<MatchClaims, String>>(
    token: &str,
    secret: &[u8],
    now_unix_ms: u64,
    parse: F,
) -> (answer: Result<MatchClaims, String>)
    requires
        forall|payload: &Vec<u8>| #[trigger] parse.requires((payload,)),
    ensures
        token_outcome(token@, secret@, now_unix_ms, parse, answer),
{
    let payload = match open_token(token, secret) {
        Ok(payload) => payload,
        Err(why) => return Err(why),
    };
    match parse(&payload) {
        Ok(claims) => validate_claims(claims, now_unix_ms),
        Err(why) => Err(told("invalid token payload JSON: ", why)),
    }
}

/// A token opens just where its signature is the tag of its own payload under
/// the secret.
pub proof fn law_only_the_signed_opens(token: Seq<char>, secret: Seq<u8>)
    requires
        signed_payload(token, secret) is Ok,
    ensures
        ({
            let parts = token_parts(token);
            &&& parts is Ok
            &&& base64url_decoded(parts->Ok_0.0) == Ok::<Seq<u8>, Seq<char>>(
                signed_payload(token, secret)->Ok_0,
            )
            &&& base64url_decoded(parts->Ok_0.1) == Ok::<Seq<u8>, Seq<char>>(
                hmac_sha256(secret, signed_payload(token, secret)->Ok_0),
            )
        }),
{
}

/// Claims that were accepted have not run out, have ports that exist, each once,
/// and a player among them has one at least.
pub proof fn law_accepted_claims(claims: MatchClaims, now_unix_ms: u64, out: MatchClaims)
    requires
        claims_outcome(claims, now_unix_ms, Ok(out)),
    ensures
        out.exp_unix_ms > now_unix_ms,
        out.match_id@.len() > 0,
        out.player_id@.len() > 0,
        ascending(out.allowed_ports@),
        forall|i: int|
            0 <= i < out.allowed_ports@.len() ==> #[trigger] out.allowed_ports@[i] < MAX_PORTS,
        out.role == MatchRole::Player ==> out.allowed_ports@.len() > 0,
{
    let given = claims.allowed_ports@;
    assert forall|i: int| 0 <= i < out.allowed_ports@.len() implies #[trigger] out.allowed_ports@[i]
        < MAX_PORTS by {
        assert(out.allowed_ports@.contains(out.allowed_ports@[i]));
        let k = choose|k: int| 0 <= k < given.len() && given[k] == out.allowed_ports@[i];
        assert(given[k] < MAX_PORTS);
    }
    if out.role == MatchRole::Player {
        assert(given.contains(given[0]));
        assert(out.allowed_ports@.contains(given[0]));
    }
}

/// A version in front of a token changes nothing.
pub proof fn law_version_is_optional(payload: Seq<char>, signature: Seq<char>)
    requires
        forall|i: int| 0 <= i < payload.len() ==> #[trigger] payload[i] != '.',
        forall|i: int| 0 <= i < signature.len() ==> #[trigger] signature[i] != '.',
    ensures
        token_parts(payload.push('.') + signature) == Ok::<(Seq<char>, Seq<char>), Seq<char>>(
            (payload, signature),
        ),
        token_parts("v1."@ + payload.push('.') + signature) == Ok::<
            (Seq<char>, Seq<char>),
            Seq<char>,
        >((payload, signature)),
{
    let two = payload.push('.') + signature;
    text::lemma_before_mark(two, '.', payload.len() as int);
    assert(two.take(payload.len() as int) =~= payload);
    assert(two.skip((payload.len() + 1) as int) =~= signature);
    text::lemma_before_mark(signature, '.', signature.len() as int);
    assert(text::pieces(signature, '.') =~= seq![signature]);
    assert(text::pieces(two, '.') =~= seq![payload, signature]);
    reveal_strlit("v1.");
    reveal_strlit("v1");
    let three = "v1."@ + payload.push('.') + signature;
    text::lemma_before_mark(three, '.', 2);
    assert(three.take(2) =~= "v1"@);
    assert(three.skip(3) =~= two);
    assert(text::pieces(three, '.') =~= seq!["v1"@, payload, signature]);
}

} // verus!
