//! Request tokens: the split into parts, the claims and the checks on them.
//!
//! A token is accepted when it has three parts, its payload holds an issuer, an audience
//! and an expiry, the audience is this service, the expiry has not passed and the
//! signature over the first two parts verifies under the issuer's key. Resolving the
//! issuer to its key needs the network, so the key is handed in as the multibase text
//! that the issuer's DID document publishes.

use vstd::prelude::*;
use vstd::string::{StringExecFns, StrSliceExecFns};
use crate::types::{JwtClaims, JwtClaimsView};
use crate::record::string_value;
use crate::record::text_value;
use crate::text::{same_text, strip_prefix};

verus! {

/// Why a token was refused.
#[derive(Debug, Clone, Copy, PartialEq, Eq, Structural)]
pub enum AuthError {
    /// The token does not consist of three parts.
    Malformed,
    /// The payload cannot be decoded, or lacks the issuer, the audience or the expiry.
    InvalidClaims,
    /// The audience is not this service.
    AudienceMismatch,
    /// The expiry has passed.
    Expired,
    /// The issuer's signing key could not be had, or is no key of a supported curve.
    UnresolvedKey,
    /// The signature does not verify under the issuer's key.
    BadSignature,
}

/// The curve of a signing key.
#[derive(Debug, Clone, Copy, PartialEq, Eq, Structural)]
pub enum KeyAlgorithm {
    P256,
    Secp256k1,
}

/// The word that a key in `did:key` form starts with.
pub const DID_KEY_PREFIX: &'static str = "did:key:";

/// The three parts of a token, without the separating dots.
#[derive(Debug)]
pub struct TokenParts {
    pub header: String,
    pub payload: String,
    pub signature: String,
}

/// Mathematical value of [`TokenParts`].
pub ghost struct TokenPartsView {
    pub header: Seq<char>,
    pub payload: Seq<char>,
    pub signature: Seq<char>,
}

impl View for TokenParts {
    type V = TokenPartsView;

    open spec fn view(&self) -> TokenPartsView {
        TokenPartsView { header: self.header@, payload: self.payload@, signature: self.signature@ }
    }
}

/// What the signature is checked against: the signed text and the signature bytes.
#[derive(Debug)]
pub struct SigningInput {
    pub message: String,
    pub signature: Vec<u8>,
}

/// The bytes that a base64url text without padding encodes, or `None` where the text is
/// no such encoding.
pub uninterp spec fn base64url_bytes(text: Seq<char>) -> Option<Seq<u8>>;

/// The text that the JSON object `doc` holds under `key`, or `None` where `doc` is not
/// JSON, holds no such member, or holds one that is not a text.
pub uninterp spec fn json_text_member(doc: Seq<u8>, key: Seq<char>) -> Option<Seq<char>>;

/// The integer that the JSON object `doc` holds under `key`, or `None` where `doc` is not
/// JSON, holds no such member, or holds one that is not an integer that fits `i64`.
pub uninterp spec fn json_integer_member(doc: Seq<u8>, key: Seq<char>) -> Option<i64>;

/// The bytes that a multibase text encodes, or `None` where the text is no multibase
/// encoding.
pub uninterp spec fn multibase_bytes(text: Seq<char>) -> Option<Seq<u8>>;

/// The curve and the uncompressed public key that a multikey text encodes, or `None`
/// where the text encodes no key of a supported curve.
pub uninterp spec fn multikey_public_key(multikey: Seq<char>) -> Option<(KeyAlgorithm, Seq<u8>)>;

/// The `did:key` form of a public key, or `None` where the bytes are no key of the curve.
pub uninterp spec fn did_key_text(algorithm: KeyAlgorithm, key: Seq<u8>) -> Option<Seq<char>>;

/// Whether `signature` is a signature of the text `message` that verifies under the key
/// `did_key`.
pub uninterp spec fn signature_verifies(
    did_key: Seq<char>,
    message: Seq<char>,
    signature: Seq<u8>,
) -> bool;

/// A multikey text that can be handed to the key parser: one that is no multibase
/// encoding, which the parser refuses, or one that encodes two bytes at least, which the
/// parser reads as the code of the curve.
pub open spec fn multikey_is_safe(multikey: Seq<char>) -> bool {
    match multibase_bytes(multikey) {
        Some(bytes) => bytes.len() >= 2,
        None => true,
    }
}

/// A key text that can be handed to the signature check: one that is not in `did:key`
/// form, which the check refuses, or one whose multikey can be handed to the key parser.
pub open spec fn did_key_is_safe(did_key: Seq<char>) -> bool {
    DID_KEY_PREFIX@.is_prefix_of(did_key) ==> multikey_is_safe(
        did_key.skip(DID_KEY_PREFIX@.len() as int),
    )
}

/// Decodes with `multibase::decode` and drops the base. Trusted: the result is the named
/// decoding of the text, `None` where the decoder reports an error.
#[verifier::external_body]
fn decode_multibase(text: &str) -> (r: Option<Vec<u8>>)
    ensures
        match r {
            Some(bytes) => multibase_bytes(text@) == Some(bytes@),
            None => multibase_bytes(text@).is_none(),
        },
{
    match multibase::decode(text) {
        Ok((_, bytes)) => Some(bytes),
        Err(_) => None,
    }
}

/// Parses with `atrium_crypto::did::parse_multikey`, which reads the first two decoded
/// bytes as the code of the curve and fails without them: such texts are left out.
/// Trusted: the result is the named key of the text, `None` where the parser reports an
/// error.
#[verifier::external_body]
fn parse_multikey(multikey: &str) -> (r: Option<(KeyAlgorithm, Vec<u8>)>)
    requires
        multikey_is_safe(multikey@),
    ensures
        match r {
            Some((algorithm, key)) => multikey_public_key(multikey@) == Some((algorithm, key@)),
            None => multikey_public_key(multikey@).is_none(),
        },
{
    match atrium_crypto::did::parse_multikey(multikey) {
        Ok((atrium_crypto::Algorithm::P256, key)) => Some((KeyAlgorithm::P256, key)),
        Ok((atrium_crypto::Algorithm::Secp256k1, key)) => Some((KeyAlgorithm::Secp256k1, key)),
        Err(_) => None,
    }
}

/// Formats with `atrium_crypto::did::format_did_key`. Trusted: the result is the named
/// `did:key` form of the key, `None` where the formatter reports an error.
#[verifier::external_body]
fn format_did_key(algorithm: KeyAlgorithm, key: &[u8]) -> (r: Option<String>)
    ensures
        string_value(r) == did_key_text(algorithm, key@),
{
    let curve = match algorithm {
        KeyAlgorithm::P256 => atrium_crypto::Algorithm::P256,
        KeyAlgorithm::Secp256k1 => atrium_crypto::Algorithm::Secp256k1,
    };
    match atrium_crypto::did::format_did_key(curve, key) {
        Ok(did_key) => Some(did_key),
        Err(_) => None,
    }
}

/// Verifies with `atrium_crypto::verify::verify_signature`, which parses the multikey of a
/// key in `did:key` form as `parse_multikey` does: texts on which that fails are left out.
/// Trusted: the result is the named verdict, `false` where the function reports an error.
#[verifier::external_body]
fn verify_signature(did_key: &str, message: &str, signature: &[u8]) -> (r: bool)
    requires
        did_key_is_safe(did_key@),
    ensures
        r == signature_verifies(did_key@, message@, signature@),
{
    atrium_crypto::verify::verify_signature(did_key, message.as_bytes(), signature).is_ok()
}

/// Decodes with `base64::Engine::decode` of the engine `URL_SAFE_NO_PAD`. Trusted: the
/// result is the named decoding of the text, `None` where the engine reports an error.
#[verifier::external_body]
fn decode_base64url(text: &str) -> (r: Option<Vec<u8>>)
    ensures
        match r {
            Some(bytes) => base64url_bytes(text@) == Some(bytes@),
            None => base64url_bytes(text@).is_none(),
        },
{
    match base64::Engine::decode(&base64::engine::general_purpose::URL_SAFE_NO_PAD, text) {
        Ok(bytes) => Some(bytes),
        Err(_) => None,
    }
}

/// Parses with `serde_json::from_slice` and reads a member with `Value::get` and
/// `Value::as_str`. Trusted: the result is the named text member of the document.
#[verifier::external_body]
fn read_json_text(doc: &[u8], key: &str) -> (r: Option<String>)
    ensures
        string_value(r) == json_text_member(doc@, key@),
{
    match serde_json::from_slice::<serde_json::Value>(doc) {
        Ok(value) => match value.get(key) {
            Some(member) => match member.as_str() {
                Some(text) => Some(text.to_string()),
                None => None,
            },
            None => None,
        },
        Err(_) => None,
    }
}

/// Parses with `serde_json::from_slice` and reads a member with `Value::get` and
/// `Value::as_i64`. Trusted: the result is the named integer member of the document.
#[verifier::external_body]
fn read_json_integer(doc: &[u8], key: &str) -> (r: Option<i64>)
    ensures
        r == json_integer_member(doc@, key@),
{
    match serde_json::from_slice::<serde_json::Value>(doc) {
        Ok(value) => match value.get(key) {
            Some(member) => member.as_i64(),
            None => None,
        },
        Err(_) => None,
    }
}

/// The token holds dots at the places `first` and `second` and nowhere else.
pub open spec fn splits_at(token: Seq<char>, first: int, second: int) -> bool {
    &&& 0 <= first < second < token.len()
    &&& forall|i: int|
        0 <= i < token.len() ==> ((#[trigger] token[i]) == '.' <==> (i == first || i == second))
}

/// The three parts of a token that holds exactly two dots; `None` for any other text.
pub open spec fn token_parts(token: Seq<char>) -> Option<TokenPartsView> {
    if exists|first: int, second: int| splits_at(token, first, second) {
        let (first, second) = choose|first: int, second: int| splits_at(token, first, second);
        Some(
            TokenPartsView {
                header: token.subrange(0, first),
                payload: token.subrange(first + 1, second),
                signature: token.subrange(second + 1, token.len() as int),
            },
        )
    } else {
        None
    }
}

/// A token splits at one pair of places only.
pub proof fn lemma_split_is_unique(token: Seq<char>, a: int, b: int, c: int, d: int)
    requires
        splits_at(token, a, b),
        splits_at(token, c, d),
    ensures
        a == c,
        b == d,
{
    assert(token[a] == '.');
    assert(token[b] == '.');
    assert(token[c] == '.');
    assert(token[d] == '.');
}

/// The claims after the checks on them: all three must be there, the audience must be
/// the service, and the expiry must not lie before `now`.
pub open spec fn checked_claims(
    iss: Option<Seq<char>>,
    aud: Option<Seq<char>>,
    exp: Option<i64>,
    service_did: Seq<char>,
    now: i64,
) -> Result<JwtClaimsView, AuthError> {
    if iss is None || aud is None || exp is None {
        Err(AuthError::InvalidClaims)
    } else if aud->0 != service_did {
        Err(AuthError::AudienceMismatch)
    } else if exp->0 < now {
        Err(AuthError::Expired)
    } else {
        Ok(JwtClaimsView { iss: iss->0, aud: aud->0, exp: exp->0 })
    }
}

/// The checked claims of a token at the instant `now`, in seconds since the epoch.
pub open spec fn claims_of_token(token: Seq<char>, service_did: Seq<char>, now: i64) -> Result<
    JwtClaimsView,
    AuthError,
> {
    match token_parts(token) {
        None => Err(AuthError::Malformed),
        Some(parts) => match base64url_bytes(parts.payload) {
            None => Err(AuthError::InvalidClaims),
            Some(doc) => checked_claims(
                json_text_member(doc, "iss"@),
                json_text_member(doc, "aud"@),
                json_integer_member(doc, "exp"@),
                service_did,
                now,
            ),
        },
    }
}

/// The signing key in `did:key` form that a multibase key text stands for, or `None`
/// where the text holds no key of a supported curve.
pub open spec fn signing_key_of(multikey: Seq<char>) -> Option<Seq<char>> {
    if !multikey_is_safe(multikey) {
        None
    } else {
        match multikey_public_key(multikey) {
            Some((algorithm, key)) => did_key_text(algorithm, key),
            None => None,
        }
    }
}

/// The signature of the token verifies under the key `did_key`.
pub open spec fn signature_holds_for(token: Seq<char>, did_key: Seq<char>) -> bool {
    match signing_input_of(token) {
        None => false,
        Some((message, signature)) => did_key_is_safe(did_key) && signature_verifies(
            did_key,
            message,
            signature,
        ),
    }
}

/// The verdict that follows from the checked claims, the signing key and the outcome of
/// the signature check: a refusal of the claims stands, then a key is needed, then the
/// signature must have held.
pub open spec fn verdict_of(
    claims: Result<JwtClaimsView, AuthError>,
    did_key: Option<Seq<char>>,
    signature_held: bool,
) -> Result<JwtClaimsView, AuthError> {
    match claims {
        Err(e) => Err(e),
        Ok(c) => if did_key is None {
            Err(AuthError::UnresolvedKey)
        } else if signature_held {
            Ok(c)
        } else {
            Err(AuthError::BadSignature)
        },
    }
}

/// The signing key in `did:key` form of an issuer whose key text is `issuer_key`.
pub open spec fn issuer_did_key(issuer_key: Option<Seq<char>>) -> Option<Seq<char>> {
    match issuer_key {
        Some(multikey) => signing_key_of(multikey),
        None => None,
    }
}

/// The verdict on a token at the instant `now`, in seconds since the epoch, for an issuer
/// whose key text is `issuer_key`.
pub open spec fn validated(
    token: Seq<char>,
    service_did: Seq<char>,
    now: i64,
    issuer_key: Option<Seq<char>>,
) -> Result<JwtClaimsView, AuthError> {
    verdict_of(
        claims_of_token(token, service_did, now),
        issuer_did_key(issuer_key),
        match issuer_did_key(issuer_key) {
            Some(did_key) => signature_holds_for(token, did_key),
            None => false,
        },
    )
}

/// The value of a verdict.
pub open spec fn verdict_value(r: Result<JwtClaims, AuthError>) -> Result<JwtClaimsView, AuthError> {
    match r {
        Ok(claims) => Ok(claims@),
        Err(e) => Err(e),
    }
}

/// What the signature of a token is checked against: the text before the second dot and
/// the decoded third part. `None` where the token has no three parts or the third part is
/// not base64url.
pub open spec fn signing_input_of(token: Seq<char>) -> Option<(Seq<char>, Seq<u8>)> {
    match token_parts(token) {
        None => None,
        Some(parts) => match base64url_bytes(parts.signature) {
            None => None,
            Some(signature) => Some((parts.header + seq!['.'] + parts.payload, signature)),
        },
    }
}

/// Splits a token at its dots; a text with more or fewer than two dots is no token.
pub fn split_token(token: &str) -> (r: Option<TokenParts>)
    ensures
        match r {
            Some(parts) => token_parts(token@) == Some(parts@),
            None => token_parts(token@).is_none(),
        },
{
    let n: usize = token.unicode_len();
    let mut dots: Vec<usize> = Vec::new();
    let mut i: usize = 0;
    while i < n && dots.len() < 3
        invariant
            i <= n,
            n == token@.len(),
            dots.len() <= 3,
            forall|k: int| 0 <= k < dots.len() ==> #[trigger] dots[k] < i && token@[dots[k] as int] == '.',
            forall|k: int, l: int| 0 <= k < l < dots.len() ==> #[trigger] dots[k] < #[trigger] dots[l],
            forall|j: int| 0 <= j < i && #[trigger] token@[j] == '.' ==> dots@.contains(j as usize),
        decreases n - i,
    {
        if token.get_char(i) == '.' {
            let ghost before = dots@;
            dots.push(i);
            assert forall|j: int| 0 <= j < i + 1 && #[trigger] token@[j] == '.' implies dots@.contains(
                j as usize,
            ) by {
                if j < i {
                    let k = choose|k: int| 0 <= k < before.len() && before[k] == j as usize;
                    assert(dots@[k] == j as usize);
                } else {
                    assert(dots@[before.len() as int] == j as usize);
                }
            }
        }
        i += 1;
    }
    if dots.len() == 2 {
        let first: usize = dots[0];
        let second: usize = dots[1];
        proof {
            assert(first < second);
            assert forall|j: int| 0 <= j < n implies ((#[trigger] token@[j]) == '.' <==> (j == first
                || j == second)) by {
                if token@[j] == '.' {
                    let k = choose|k: int| 0 <= k < dots@.len() && dots@[k] == j as usize;
                    assert(k == 0 || k == 1);
                }
            }
            assert(splits_at(token@, first as int, second as int));
            let (a, b) = choose|a: int, b: int| splits_at(token@, a, b);
            lemma_split_is_unique(token@, a, b, first as int, second as int);
        }
        Some(
            TokenParts {
                header: String::from_str(token.substring_char(0, first)),
                payload: String::from_str(token.substring_char(first + 1, second)),
                signature: String::from_str(token.substring_char(second + 1, n)),
            },
        )
    } else {
        proof {
            assert forall|a: int, b: int| !splits_at(token@, a, b) by {
                if splits_at(token@, a, b) {
                    if dots.len() == 3 {
                        assert(token@[dots[0] as int] == '.');
                        assert(token@[dots[1] as int] == '.');
                        assert(token@[dots[2] as int] == '.');
                        assert(dots[0] < dots[1] < dots[2]);
                    } else {
                        assert(token@[a] == '.');
                        assert(token@[b] == '.');
                        let k = choose|k: int| 0 <= k < dots@.len() && dots@[k] == a as usize;
                        let l = choose|l: int| 0 <= l < dots@.len() && dots@[l] == b as usize;
                        assert(k != l);
                    }
                }
            }
        }
        None
    }
}

/// Checks the claims that were read from a payload.
pub fn check_claims(
    iss: Option<String>,
    aud: Option<String>,
    exp: Option<i64>,
    service_did: &str,
    now: i64,
) -> (r: Result<JwtClaims, AuthError>)
    ensures
        verdict_value(r) == checked_claims(
            string_value(iss),
            string_value(aud),
            exp,
            service_did@,
            now,
        ),
{
    match (iss, aud, exp) {
        (Some(iss), Some(aud), Some(exp)) => {
            if !same_text(aud.as_str(), service_did) {
                Err(AuthError::AudienceMismatch)
            } else if exp < now {
                Err(AuthError::Expired)
            } else {
                Ok(JwtClaims { iss, aud, exp })
            }
        },
        _ => Err(AuthError::InvalidClaims),
    }
}

/// Reads and checks the claims of a token at the instant `now`, in seconds since the
/// epoch. The signature is not looked at.
pub fn read_claims(token: &str, service_did: &str, now: i64) -> (r: Result<JwtClaims, AuthError>)
    ensures
        verdict_value(r) == claims_of_token(token@, service_did@, now),
{
    let parts = match split_token(token) {
        Some(parts) => parts,
        None => {
            return Err(AuthError::Malformed);
        },
    };
    let doc = match decode_base64url(parts.payload.as_str()) {
        Some(doc) => doc,
        None => {
            return Err(AuthError::InvalidClaims);
        },
    };
    let iss = read_json_text(doc.as_slice(), "iss");
    let aud = read_json_text(doc.as_slice(), "aud");
    let exp = read_json_integer(doc.as_slice(), "exp");
    check_claims(iss, aud, exp, service_did, now)
}

/// Prepares the check of the signature: the signed text and the signature bytes.
pub fn signing_input(token: &str) -> (r: Option<SigningInput>)
    ensures
        match r {
            Some(input) => signing_input_of(token@) == Some((input.message@, input.signature@)),
            None => signing_input_of(token@).is_none(),
        },
{
    let parts = match split_token(token) {
        Some(parts) => parts,
        None => {
            return None;
        },
    };
    let signature = match decode_base64url(parts.signature.as_str()) {
        Some(signature) => signature,
        None => {
            return None;
        },
    };
    proof {
        reveal_strlit(".");
        assert("."@ =~= seq!['.']);
    }
    let message = parts.header.concat(".").concat(parts.payload.as_str());
    Some(SigningInput { message, signature })
}

/// Tells whether a multikey text can be handed to the key parser.
pub fn multikey_safe(multikey: &str) -> (r: bool)
    ensures
        r == multikey_is_safe(multikey@),
{
    match decode_multibase(multikey) {
        Some(bytes) => bytes.len() >= 2,
        None => true,
    }
}

/// Turns the multibase key text of a DID document into the signing key in `did:key`
/// form; `None` where the text holds no key of a supported curve.
pub fn signing_key(public_key_multibase: &str) -> (r: Option<String>)
    ensures
        string_value(r) == signing_key_of(public_key_multibase@),
{
    if !multikey_safe(public_key_multibase) {
        return None;
    }
    match parse_multikey(public_key_multibase) {
        Some((algorithm, key)) => format_did_key(algorithm, key.as_slice()),
        None => None,
    }
}

/// Tells whether the signature of a token verifies under the key `did_key`.
pub fn signature_holds(token: &str, did_key: &str) -> (r: bool)
    ensures
        r == signature_holds_for(token@, did_key@),
{
    let input = match signing_input(token) {
        Some(input) => input,
        None => {
            return false;
        },
    };
    let safe = match strip_prefix(did_key, DID_KEY_PREFIX) {
        Some(multikey) => multikey_safe(multikey),
        None => true,
    };
    safe && verify_signature(did_key, input.message.as_str(), input.signature.as_slice())
}

/// Draws the verdict from the checked claims, whether a signing key was found, and
/// whether the signature held under it.
pub fn verdict(claims: Result<JwtClaims, AuthError>, did_key_found: bool, signature_held: bool) -> (r:
    Result<JwtClaims, AuthError>)
    ensures
        verdict_value(r) == verdict_of(
            verdict_value(claims),
            if did_key_found {
                Some(Seq::<char>::empty())
            } else {
                None
            },
            signature_held,
        ),
{
    match claims {
        Err(e) => Err(e),
        Ok(c) => {
            if !did_key_found {
                Err(AuthError::UnresolvedKey)
            } else if signature_held {
                Ok(c)
            } else {
                Err(AuthError::BadSignature)
            }
        },
    }
}

/// Decides on a token at the instant `now`, in seconds since the epoch. `issuer_key` is
/// the signing key that the issuer of the token publishes, as the multibase text of its
/// DID document; `None` where none could be had.
pub fn validate_jwt(token: &str, service_did: &str, now: i64, issuer_key: Option<&str>) -> (r:
    Result<JwtClaims, AuthError>)
    ensures
        verdict_value(r) == validated(token@, service_did@, now, text_value(issuer_key)),
{
    let claims = read_claims(token, service_did, now);
    if claims.is_err() {
        return claims;
    }
    let did_key = match issuer_key {
        Some(multikey) => signing_key(multikey),
        None => None,
    };
    match did_key {
        Some(did_key) => {
            let held = signature_holds(token, did_key.as_str());
            verdict(claims, true, held)
        },
        None => verdict(claims, false, false),
    }
}

/// The reason of a refusal, in words.
pub open spec fn reason(e: AuthError) -> Seq<char> {
    match e {
        AuthError::Malformed => "Invalid JWT format"@,
        AuthError::InvalidClaims => "Invalid JWT claims"@,
        AuthError::AudienceMismatch => "Invalid JWT audience"@,
        AuthError::Expired => "JWT has expired"@,
        AuthError::UnresolvedKey => "No atproto signing key found for the issuer"@,
        AuthError::BadSignature => "Invalid JWT signature"@,
    }
}

impl AuthError {
    /// The reason of the refusal, in words.
    pub fn message(&self) -> (r: String)
        ensures
            r@ == reason(*self),
    {
        match self {
            AuthError::Malformed => String::from_str("Invalid JWT format"),
            AuthError::InvalidClaims => String::from_str("Invalid JWT claims"),
            AuthError::AudienceMismatch => String::from_str("Invalid JWT audience"),
            AuthError::Expired => String::from_str("JWT has expired"),
            AuthError::UnresolvedKey => String::from_str(
                "No atproto signing key found for the issuer",
            ),
            AuthError::BadSignature => String::from_str("Invalid JWT signature"),
        }
    }
}

/// A token is accepted only if it names this service as its audience, has not expired,
/// and carries a signature that verifies under the signing key of its issuer.
pub proof fn accepted_token_is_for_service_and_unexpired(
    token: Seq<char>,
    service_did: Seq<char>,
    now: i64,
    issuer_key: Option<Seq<char>>,
)
    requires
        validated(token, service_did, now, issuer_key) is Ok,
    ensures
        validated(token, service_did, now, issuer_key)->Ok_0.aud == service_did,
        validated(token, service_did, now, issuer_key)->Ok_0.exp >= now,
        token_parts(token) is Some,
        issuer_did_key(issuer_key) is Some,
        signature_holds_for(token, issuer_did_key(issuer_key)->0),
{
}

} // verus!
