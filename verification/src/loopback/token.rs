//! The signed token with which a tool resumes a chain.
//!
//! On the wire a token is the base64 of its claims' JSON text, a dot, and the
//! base64 of the HMAC-SHA256 of that text, both in the URL-safe alphabet without
//! padding.

use vstd::prelude::*;
use vstd::utf8::encode_utf8;

use crate::json::{nests_within, object_of, read_depth, seq_view, string, uint, Json, JsonV, Num};
use crate::members::{
    given, law_field_given_twice_is_refused, law_members_come_back, members_in, members_text, read_record, record_in,
    write_members,
};
use crate::shape::{pick, seat, seated};
use crate::text::{concat3, lemma_split_first, split_first, split_once, strs};

verus! {

/// The claims of a token.
#[derive(Clone, PartialEq, Eq, Debug)]
pub struct ChainToken {
    pub cid: String,
    pub route_id: String,
    pub resume_index: usize,
    pub hop: u32,
    pub expires_at_unix: u64,
}

#[verifier::ext_equal]
pub struct ChainTokenV {
    pub cid: Seq<char>,
    pub route_id: Seq<char>,
    pub resume_index: usize,
    pub hop: u32,
    pub expires_at_unix: u64,
}

impl View for ChainToken {
    type V = ChainTokenV;

    open spec fn view(&self) -> ChainTokenV {
        ChainTokenV {
            cid: self.cid@,
            route_id: self.route_id@,
            resume_index: self.resume_index,
            hop: self.hop,
            expires_at_unix: self.expires_at_unix,
        }
    }
}

/// Why a token is refused.
#[derive(Clone, Copy, PartialEq, Eq, Structural, Debug)]
pub enum TokenError {
    BadFormat,
    BadMac,
    Expired,
}

impl TokenError {
    /// The message of an error.
    pub open spec fn text(self) -> Seq<char> {
        match self {
            TokenError::BadFormat => "chain token is malformed"@,
            TokenError::BadMac => "chain token MAC verification failed"@,
            TokenError::Expired => "chain token has expired"@,
        }
    }

    /// The message of the error.
    pub fn message(&self) -> (r: String)
        ensures
            r@ == self.text(),
    {
        match self {
            TokenError::BadFormat => "chain token is malformed".to_owned(),
            TokenError::BadMac => "chain token MAC verification failed".to_owned(),
            TokenError::Expired => "chain token has expired".to_owned(),
        }
    }
}

/// The text that base64's URL-safe engine without padding encodes bytes to.
pub uninterp spec fn url_text(bytes: Seq<u8>) -> Seq<char>;

/// The bytes that base64's URL-safe engine without padding decodes a text to.
pub uninterp spec fn url_bytes(text: Seq<char>) -> Option<Seq<u8>>;

/// The HMAC-SHA256 of a text under a secret.
pub uninterp spec fn hmac_sha256(secret: Seq<u8>, payload: Seq<u8>) -> Seq<u8>;

/// Whether a character is in the URL-safe alphabet.
pub open spec fn url_safe(c: char) -> bool {
    ('A' <= c && c <= 'Z') || ('a' <= c && c <= 'z') || ('0' <= c && c <= '9') || c == '-' || c == '_'
}

/// Whether all characters of a text are in the URL-safe alphabet.
pub open spec fn all_url_safe(s: Seq<char>) -> bool {
    forall|i: int| 0 <= i < s.len() ==> url_safe(#[trigger] s[i])
}

/// Calls `Engine::encode` of base64's `general_purpose::URL_SAFE_NO_PAD`. The text is
/// a function of the bytes, it holds characters of the URL-safe alphabet only, and
/// the same engine decodes it to the bytes again.
#[verifier::external_body]
fn encode_url(bytes: &[u8]) -> (r: String)
    ensures
        r@ == url_text(bytes@),
        url_bytes(r@) == Some(bytes@),
        all_url_safe(r@),
{
    base64::Engine::encode(&base64::engine::general_purpose::URL_SAFE_NO_PAD, bytes)
}

/// The view of bytes that may be absent.
pub open spec fn opt_bytes(r: Option<Vec<u8>>) -> Option<Seq<u8>> {
    match r {
        Some(b) => Some(b@),
        None => None,
    }
}

/// Calls `Engine::decode` of base64's `general_purpose::URL_SAFE_NO_PAD`: a function
/// of the text, an error given as nothing.
#[verifier::external_body]
fn decode_url(text: &str) -> (r: Option<Vec<u8>>)
    ensures
        opt_bytes(r) == url_bytes(text@),
{
    base64::Engine::decode(&base64::engine::general_purpose::URL_SAFE_NO_PAD, text).ok()
}

/// Calls `Mac::finalize` of hmac's `Hmac<Sha256>` under a key, which may have any
/// length, after `Mac::update` with the payload: a function of both.
#[verifier::external_body]
fn mac_bytes(secret: &[u8], payload: &[u8]) -> (r: Vec<u8>)
    ensures
        r@ == hmac_sha256(secret@, payload@),
{
    let mac = <hmac::Hmac<sha2::Sha256> as hmac::Mac>::new_from_slice(secret);
    mac.map(|m| hmac::Mac::finalize(hmac::Mac::chain_update(m, payload)).into_bytes().to_vec()).unwrap_or_default()
}

/// Calls `Mac::verify_slice` of hmac's `Hmac<Sha256>` under a key, which may have any
/// length, after `Mac::update` with the payload: whether the claimed code is the one
/// that `Mac::finalize` gives.
#[verifier::external_body]
fn mac_matches(secret: &[u8], payload: &[u8], claimed: &[u8]) -> (r: bool)
    ensures
        r == (claimed@ == hmac_sha256(secret@, payload@)),
{
    let mac = <hmac::Hmac<sha2::Sha256> as hmac::Mac>::new_from_slice(secret);
    mac.is_ok_and(|m| hmac::Mac::verify_slice(hmac::Mac::chain_update(m, payload), claimed).is_ok())
}

/// The names of the claims, in the order in which a token's text has them.
pub const CLAIM_NAMES: [&'static str; 5] = [
    "cid",
    "route_id",
    "resume_index",
    "hop",
    "expires_at_unix",
];

/// The values of the claims, in the same order.
pub open spec fn claim_values(t: ChainTokenV) -> Seq<JsonV> {
    seq![
        JsonV::Str(t.cid),
        JsonV::Str(t.route_id),
        JsonV::Number(Num::PosInt(t.resume_index as u64)),
        JsonV::Number(Num::PosInt(t.hop as u64)),
        JsonV::Number(Num::PosInt(t.expires_at_unix)),
    ]
}

/// The bytes that are signed.
pub open spec fn payload_of(t: ChainTokenV) -> Seq<u8> {
    encode_utf8(members_text(strs(CLAIM_NAMES@), claim_values(t)))
}

/// The token of some claims under a secret.
pub open spec fn signed(t: ChainTokenV, secret: Seq<u8>) -> Seq<char> {
    url_text(payload_of(t)) + "."@ + url_text(hmac_sha256(secret, payload_of(t)))
}

/// The claims that a JSON value spells out.
pub open spec fn claims_in(v: JsonV) -> Option<ChainTokenV> {
    let v = seated(v, strs(CLAIM_NAMES@), 5);
    match (
        v.text_at("cid"@),
        v.text_at("route_id"@),
        v.uint_at("resume_index"@),
        v.uint_at("hop"@),
        v.uint_at("expires_at_unix"@),
    ) {
        (Some(cid), Some(route_id), Some(resume_index), Some(hop), Some(expires_at_unix)) => if resume_index
            > usize::MAX || hop > u32::MAX {
            None
        } else {
            Some(
                ChainTokenV {
                    cid,
                    route_id,
                    resume_index: resume_index as usize,
                    hop: hop as u32,
                    expires_at_unix,
                },
            )
        },
        _ => None,
    }
}

/// The claims of a token whose code holds under a secret.
pub open spec fn decoded(token: Seq<char>, secret: Seq<u8>) -> Result<ChainTokenV, TokenError> {
    match split_first(token, '.') {
        None => Err(TokenError::BadFormat),
        Some((left, right)) => match (url_bytes(left), url_bytes(right)) {
            (Some(payload), Some(mac)) => if mac != hmac_sha256(secret, payload) {
                Err(TokenError::BadMac)
            } else {
                match record_in(payload, strs(CLAIM_NAMES@)) {
                    None => Err(TokenError::BadFormat),
                    Some(v) => match claims_in(v) {
                        Some(t) => Ok(t),
                        None => Err(TokenError::BadFormat),
                    },
                }
            },
            _ => Err(TokenError::BadFormat),
        },
    }
}

/// The claims of a token whose code holds and that has not expired.
pub open spec fn verified(token: Seq<char>, secret: Seq<u8>, now: u64) -> Result<
    ChainTokenV,
    TokenError,
> {
    match decoded(token, secret) {
        Err(e) => Err(e),
        Ok(t) => if t.expires_at_unix <= now {
            Err(TokenError::Expired)
        } else {
            Ok(t)
        },
    }
}

/// Claims that were read, or the error.
pub open spec fn claims_view(r: Result<ChainToken, TokenError>) -> Result<ChainTokenV, TokenError> {
    match r {
        Ok(t) => Ok(t@),
        Err(e) => Err(e),
    }
}

proof fn lemma_claims_come_back(t: ChainTokenV)
    ensures
        ({
            let v = JsonV::Object(object_of(strs(CLAIM_NAMES@), claim_values(t)));
            claims_in(v) == Some(t)
        }),
        strs(CLAIM_NAMES@).no_duplicates(),
        strs(CLAIM_NAMES@).len() == claim_values(t).len(),
        forall|i: int|
            0 <= i < claim_values(t).len() ==> nests_within(#[trigger] claim_values(t)[i], read_depth()),
{
    let names = strs(CLAIM_NAMES@);
    let vals = claim_values(t);
    let m = object_of(names, vals);
    assert(names == seq!["cid"@, "route_id"@, "resume_index"@, "hop"@, "expires_at_unix"@]);
    assert(m == Map::<Seq<char>, JsonV>::empty().insert("cid"@, vals[0]).insert(
        "route_id"@,
        vals[1],
    ).insert("resume_index"@, vals[2]).insert("hop"@, vals[3]).insert("expires_at_unix"@, vals[4])) by {
        reveal_with_fuel(object_of, 6);
        assert(names.drop_last() == seq!["cid"@, "route_id"@, "resume_index"@, "hop"@]);
        assert(vals.drop_last() == seq![vals[0], vals[1], vals[2], vals[3]]);
        assert(names.drop_last().drop_last() == seq!["cid"@, "route_id"@, "resume_index"@]);
        assert(vals.drop_last().drop_last() == seq![vals[0], vals[1], vals[2]]);
        assert(names.drop_last().drop_last().drop_last() == seq!["cid"@, "route_id"@]);
        assert(vals.drop_last().drop_last().drop_last() == seq![vals[0], vals[1]]);
        assert(names.drop_last().drop_last().drop_last().drop_last() == seq!["cid"@]);
        assert(vals.drop_last().drop_last().drop_last().drop_last() == seq![vals[0]]);
    }
    reveal_strlit("cid");
    reveal_strlit("route_id");
    reveal_strlit("resume_index");
    reveal_strlit("hop");
    reveal_strlit("expires_at_unix");
    assert("cid"@.len() == 3 && "route_id"@.len() == 8 && "resume_index"@.len() == 12 && "hop"@.len() == 3
        && "expires_at_unix"@.len() == 15);
    assert("cid"@[0] != "hop"@[0]);
    let v = JsonV::Object(m);
    assert(claims_in(v) == Some(t));
    assert forall|i: int| 0 <= i < vals.len() implies nests_within(#[trigger] vals[i], read_depth()) by {
        assert(!(vals[i] is Array) && !(vals[i] is Object));
    }
}

impl ChainToken {
    /// The token with one hop more.
    pub fn with_incremented_hop(self) -> (r: ChainToken)
        requires
            self.hop < u32::MAX,
        ensures
            r@ == (ChainTokenV { hop: (self@.hop + 1) as u32, ..self@ }),
    {
        ChainToken { hop: self.hop + 1, ..self }
    }

    /// Signs the token. Under the same secret the claims come back, and until they
    /// expire they are accepted.
    pub fn sign(&self, secret: &[u8]) -> (r: String)
        ensures
            r@ == signed(self@, secret@),
            decoded(r@, secret@) == Ok::<ChainTokenV, TokenError>(self@),
            forall|now: u64|
                #![trigger verified(r@, secret@, now)]
                verified(r@, secret@, now) == if now < self@.expires_at_unix {
                    Ok::<ChainTokenV, TokenError>(self@)
                } else {
                    Err(TokenError::Expired)
                },
    {
        let ghost t = self@;
        let values: [Json; 5] = [
            string(self.cid.as_str()),
            string(self.route_id.as_str()),
            uint(self.resume_index as u64),
            uint(self.hop as u64),
            uint(self.expires_at_unix),
        ];
        assert(seq_view(values@) == claim_values(t));
        let text = write_members(&CLAIM_NAMES, &values);
        let payload = text.as_str().as_bytes();
        let mac = mac_bytes(secret, payload);
        let left = encode_url(payload);
        let right = encode_url(mac.as_slice());
        let token = concat3(left.as_str(), ".", right.as_str());
        proof {
            lemma_claims_come_back(t);
            law_members_come_back(payload@, strs(CLAIM_NAMES@), claim_values(t));
            reveal_strlit(".");
            assert("."@ == seq!['.']);
            assert(!left@.contains('.'));
            lemma_split_first(left@, '.', right@);
        }
        token
    }

    /// The claims of a token whose code holds under the secret, expired or not.
    pub fn decode(token: &str, secret: &[u8]) -> (r: Result<ChainToken, TokenError>)
        ensures
            claims_view(r) == decoded(token@, secret@),
    {
        let (left, right) = match split_once(token, '.') {
            Some(parts) => parts,
            None => {
                return Err(TokenError::BadFormat);
            },
        };
        let payload = match decode_url(left) {
            Some(payload) => payload,
            None => {
                return Err(TokenError::BadFormat);
            },
        };
        let claimed = match decode_url(right) {
            Some(claimed) => claimed,
            None => {
                return Err(TokenError::BadFormat);
            },
        };
        if !mac_matches(secret, payload.as_slice(), claimed.as_slice()) {
            return Err(TokenError::BadMac);
        }
        let value = match read_record(payload.as_slice(), &CLAIM_NAMES) {
            Some(value) => value,
            None => {
                return Err(TokenError::BadFormat);
            },
        };
        match claims_from(&value) {
            Some(claims) => Ok(claims),
            None => Err(TokenError::BadFormat),
        }
    }

    /// The claims of a token whose code holds under the secret and that has not
    /// expired.
    pub fn verify(token: &str, secret: &[u8], now_unix: u64) -> (r: Result<ChainToken, TokenError>)
        ensures
            claims_view(r) == verified(token@, secret@, now_unix),
    {
        match ChainToken::decode(token, secret) {
            Err(e) => Err(e),
            Ok(claims) => if claims.expires_at_unix <= now_unix {
                Err(TokenError::Expired)
            } else {
                Ok(claims)
            },
        }
    }
}

/// Reads the claims from a JSON value: an object with all of them, or an array of
/// them in order. Members that are no claims are passed over.
pub fn claims_from(v: &Json) -> (r: Option<ChainToken>)
    ensures
        match r {
            Some(t) => claims_in(v@) == Some(t@),
            None => claims_in(v@) is None,
        },
{
    let seats = seat(v, &CLAIM_NAMES, 5);
    let v = pick(&seats, v);
    match (
        v.str_at("cid"),
        v.str_at("route_id"),
        v.u64_at("resume_index"),
        v.u64_at("hop"),
        v.u64_at("expires_at_unix"),
    ) {
        (Some(cid), Some(route_id), Some(resume_index), Some(hop), Some(expires_at_unix)) => {
            if resume_index > usize::MAX as u64 || hop > u32::MAX as u64 {
                None
            } else {
                Some(
                    ChainToken {
                        cid: cid.clone(),
                        route_id: route_id.clone(),
                        resume_index: resume_index as usize,
                        hop: hop as u32,
                        expires_at_unix,
                    },
                )
            }
        },
        _ => None,
    }
}

/// A token is accepted by no later clock than one that accepts it, and what is
/// accepted never depends on the clock: the claims are those that were signed.
pub proof fn law_acceptance_ends_with_expiry(
    token: Seq<char>,
    secret: Seq<u8>,
    earlier: u64,
    later: u64,
)
    requires
        earlier <= later,
    ensures
        verified(token, secret, later) is Ok ==> verified(token, secret, earlier) == verified(
            token,
            secret,
            later,
        ),
        verified(token, secret, later) is Ok ==> verified(token, secret, later) == decoded(token, secret),
{
}

/// Nothing is accepted but what carries the code of its own payload under the
/// secret.
pub proof fn law_accepted_code_holds(token: Seq<char>, secret: Seq<u8>)
    requires
        decoded(token, secret) is Ok,
    ensures
        ({
            let (left, right) = split_first(token, '.')->Some_0;
            &&& split_first(token, '.') is Some
            &&& url_bytes(left) is Some
            &&& url_bytes(right) == Some(hmac_sha256(secret, url_bytes(left)->Some_0))
        }),
{
}

/// A token whose payload gives a claim twice is refused, even where its code holds.
pub proof fn law_claim_given_twice_is_refused(token: Seq<char>, secret: Seq<u8>, i: int)
    requires
        split_first(token, '.') is Some,
        url_bytes(split_first(token, '.')->Some_0.0) is Some,
        ({
            let payload = url_bytes(split_first(token, '.')->Some_0.0)->Some_0;
            &&& members_in(payload) is Some
            &&& 0 <= i < CLAIM_NAMES@.len()
            &&& given(members_in(payload)->Some_0, CLAIM_NAMES@[i]@).len() > 1
        }),
    ensures
        decoded(token, secret) is Err,
{
    let payload = url_bytes(split_first(token, '.')->Some_0.0)->Some_0;
    law_field_given_twice_is_refused(payload, strs(CLAIM_NAMES@), i);
}

} // verus!
