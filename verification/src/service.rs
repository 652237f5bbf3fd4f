//! The HTTP surface: what a request for the feed skeleton is answered with, and the
//! document that the service publishes about itself.

use vstd::prelude::*;
use vstd::string::StringExecFns;
use crate::types::{
    FeedSkeletonParams, FeedSkeletonResponse, ErrorResponse, DidDocument, ServiceEndpoint,
    ServiceEndpointView, DidDocumentView,
};
use crate::record::{string_value, text_value};
use crate::database::Database;
use crate::model::{with_request, has_follower};
use crate::auth::{validate_jwt, validated, reason, signing_key_of, signature_holds_for, AuthError};
use crate::text::strip_prefix;
use crate::feed_algorithm::{FollowingNoRepostsFeed, is_feed_response, is_skeleton_of_page};
use crate::types::{PostView, JwtClaimsView};
use crate::instant::{seconds_of, whole_seconds};

verus! {

/// The answer to a request for the feed skeleton.
#[derive(Debug)]
pub enum FeedReply {
    /// The feed, with status 200.
    Feed(FeedSkeletonResponse),
    /// The request was not authenticated: status 401.
    Unauthorized(ErrorResponse),
    /// The feed could not be produced: status 500.
    Failed(ErrorResponse),
}

impl FeedReply {
    /// The HTTP status of the answer.
    pub open spec fn spec_status(&self) -> u16 {
        match self {
            FeedReply::Feed(_) => 200,
            FeedReply::Unauthorized(_) => 401,
            FeedReply::Failed(_) => 500,
        }
    }

    /// The HTTP status of the answer.
    #[verifier::when_used_as_spec(spec_status)]
    pub fn status(&self) -> (code: u16)
        ensures
            code == self.spec_status(),
    {
        match self {
            FeedReply::Feed(_) => 200,
            FeedReply::Unauthorized(_) => 401,
            FeedReply::Failed(_) => 500,
        }
    }
}

/// What a feed request leads to: the answer, the requester that was served, and whether
/// the follows and posts of the requester are to be fetched from the network because the
/// index holds none of its follows.
#[derive(Debug)]
pub struct FeedOutcome {
    pub reply: FeedReply,
    pub requester: Option<String>,
    pub backfill: bool,
}

/// The authorization header of a request, as far as it can be read.
#[derive(Debug, Clone, Copy)]
pub enum Authorization<'a> {
    /// The request has no such header.
    Missing,
    /// The header is there and is no text.
    Unreadable,
    /// The text of the header.
    Header(&'a str),
}

/// The banner served at the root.
pub const BANNER: &'static str = "Following No Reposts Feed Generator";

/// The words with which a request without credentials is refused.
pub const MISSING_AUTHORIZATION: &'static str =
    "This feed shows posts from accounts you follow and requires authentication";

/// The words with which a request with an unreadable authorization header is refused.
pub const UNREADABLE_AUTHORIZATION: &'static str = "Invalid authorization header format";

/// The scheme word at the start of an authorization header.
pub const BEARER: &'static str = "Bearer ";

/// The text that follows the scheme word in an authorization header; the whole header
/// where it does not start with that word.
pub open spec fn bearer_token_of(header: Seq<char>) -> Seq<char> {
    if BEARER@.is_prefix_of(header) {
        header.skip(BEARER@.len() as int)
    } else {
        header
    }
}

/// The token of an authorization header: the header without its scheme word.
pub fn bearer_token(header: &str) -> (token: &str)
    ensures
        token@ == bearer_token_of(header@),
{
    match strip_prefix(header, BEARER) {
        Some(rest) => rest,
        None => header,
    }
}

/// The envelope with which an unauthenticated request is refused.
pub fn authentication_required(message: String) -> (r: ErrorResponse)
    ensures
        r@.error == "AuthenticationRequired"@,
        r@.message == message@,
{
    ErrorResponse { error: String::from_str("AuthenticationRequired"), message }
}

/// The envelope with which a failure to produce the feed is reported.
pub fn internal_error(cause: &str) -> (r: ErrorResponse)
    ensures
        r@.error == "InternalServerError"@,
        r@.message == "Failed to generate feed: "@ + cause@,
{
    ErrorResponse {
        error: String::from_str("InternalServerError"),
        message: String::from_str("Failed to generate feed: ").concat(cause),
    }
}

/// The words with which a refused token is reported.
pub open spec fn refusal(e: AuthError) -> Seq<char> {
    "JWT validation failed: "@ + reason(e)
}

/// The verdict on the credentials of a request at the instant `now`, in microseconds.
pub open spec fn request_verdict(
    authorization: Seq<char>,
    service_did: Seq<char>,
    now: i64,
    issuer_key: Option<Seq<char>>,
) -> Result<JwtClaimsView, AuthError> {
    validated(bearer_token_of(authorization), service_did, whole_seconds(now) as i64, issuer_key)
}

/// Answers a request for the feed skeleton that arrived at the instant `now`.
/// `issuer_key` is the signing key that the issuer of the token publishes, as the
/// multibase text of its DID document; `None` where none could be had.
///
/// A request without an authorization header, with one that cannot be read, or with a
/// token that is refused, gets status 401 and leaves the index as it was. Any other
/// request is recorded for its issuer and gets the page of the issuer's feed; where the
/// index holds no follow of the issuer, a backfill is asked for.
pub fn get_feed_skeleton(
    db: &mut Database,
    authorization: Authorization<'_>,
    params: &FeedSkeletonParams,
    service_did: &str,
    now: i64,
    issuer_key: Option<&str>,
) -> (outcome: FeedOutcome)
    requires
        old(db).wf(),
    ensures
        final(db).wf(),
        final(db).posts() == old(db).posts(),
        final(db).follows() == old(db).follows(),
        outcome.reply.status() == 200 ==> ({
            &&& authorization matches Authorization::Header(header)
            &&& request_verdict(header@, service_did@, now, text_value(issuer_key)) matches Ok(
                claims,
            )
            &&& claims.aud == service_did@
            &&& claims.exp >= whole_seconds(now)
        }),
        match authorization {
            Authorization::Missing => {
                &&& final(db).active_users() == old(db).active_users()
                &&& outcome.requester is None
                &&& !outcome.backfill
                &&& outcome.reply matches FeedReply::Unauthorized(e)
                &&& e@.error == "AuthenticationRequired"@
                &&& e@.message == MISSING_AUTHORIZATION@
            },
            Authorization::Unreadable => {
                &&& final(db).active_users() == old(db).active_users()
                &&& outcome.requester is None
                &&& !outcome.backfill
                &&& outcome.reply matches FeedReply::Unauthorized(e)
                &&& e@.error == "AuthenticationRequired"@
                &&& e@.message == UNREADABLE_AUTHORIZATION@
            },
            Authorization::Header(header) => match request_verdict(
                header@,
                service_did@,
                now,
                text_value(issuer_key),
            ) {
                Err(refused) => {
                    &&& final(db).active_users() == old(db).active_users()
                    &&& outcome.requester is None
                    &&& !outcome.backfill
                    &&& outcome.reply matches FeedReply::Unauthorized(e)
                    &&& e@.error == "AuthenticationRequired"@
                    &&& e@.message == refusal(refused)
                },
                Ok(claims) => {
                    &&& final(db).active_users() == with_request(
                        old(db).active_users(),
                        claims.iss,
                        now,
                    )
                    &&& string_value(outcome.requester) == Some(claims.iss)
                    &&& outcome.backfill == !has_follower(old(db).follows(), claims.iss)
                    &&& outcome.reply matches FeedReply::Feed(response)
                    &&& is_feed_response(
                        old(db)@,
                        claims.iss,
                        params.limit,
                        string_value(params.cursor),
                        now,
                        response@,
                    )
                },
            },
        },
{
    let header = match authorization {
        Authorization::Header(header) => header,
        Authorization::Missing => {
            let envelope = authentication_required(String::from_str(MISSING_AUTHORIZATION));
            return FeedOutcome {
                reply: FeedReply::Unauthorized(envelope),
                requester: None,
                backfill: false,
            };
        },
        Authorization::Unreadable => {
            let envelope = authentication_required(String::from_str(UNREADABLE_AUTHORIZATION));
            return FeedOutcome {
                reply: FeedReply::Unauthorized(envelope),
                requester: None,
                backfill: false,
            };
        },
    };
    let token = bearer_token(header);
    let seconds = seconds_of(now);
    let claims = match validate_jwt(token, service_did, seconds, issuer_key) {
        Ok(claims) => claims,
        Err(refused) => {
            let message = String::from_str("JWT validation failed: ").concat(
                refused.message().as_str(),
            );
            let envelope = authentication_required(message);
            return FeedOutcome {
                reply: FeedReply::Unauthorized(envelope),
                requester: None,
                backfill: false,
            };
        },
    };
    db.record_feed_request(claims.iss.as_str(), now);
    let backfill = !db.has_follows(claims.iss.as_str());
    let requester = claims.iss.clone();
    let cursor = match &params.cursor {
        Some(c) => Some(c.clone()),
        None => None,
    };
    let ghost issuer = claims.iss@;
    let ghost limit = params.limit;
    let ghost asked = string_value(params.cursor);
    let feed = FollowingNoRepostsFeed::new(&*db);
    let response = feed.generate_feed(Some(claims.iss), params.limit, cursor, now);
    proof {
        let page = choose|page: Seq<PostView>|
            is_skeleton_of_page(db@, issuer, limit, asked, now, response@, page);
        assert(is_skeleton_of_page(old(db)@, issuer, limit, asked, now, response@, page));
    }
    FeedOutcome { reply: FeedReply::Feed(response), requester: Some(requester), backfill }
}

/// Every answer with status 200 went to a request whose token names this service as its
/// audience, had not expired when the request arrived, and carried a signature that
/// verifies under the key of its issuer.
pub proof fn served_request_was_authenticated(
    authorization: Seq<char>,
    service_did: Seq<char>,
    now: i64,
    issuer_key: Option<Seq<char>>,
)
    requires
        request_verdict(authorization, service_did, now, issuer_key) is Ok,
    ensures
        request_verdict(authorization, service_did, now, issuer_key)->Ok_0.aud == service_did,
        request_verdict(authorization, service_did, now, issuer_key)->Ok_0.exp >= whole_seconds(
            now,
        ),
        issuer_key is Some,
        signing_key_of(issuer_key->0) is Some,
        signature_holds_for(bearer_token_of(authorization), signing_key_of(issuer_key->0)->0),
{
}

/// The document that describes the service `service_did`, reachable at `hostname`.
pub open spec fn did_document_of(service_did: Seq<char>, hostname: Seq<char>) -> DidDocumentView {
    DidDocumentView {
        context: seq!["https://www.w3.org/ns/did/v1"@],
        id: service_did,
        service: seq![
            ServiceEndpointView {
                id: "#bsky_fg"@,
                service_type: "BskyFeedGenerator"@,
                service_endpoint: "https://"@ + hostname,
            },
        ],
    }
}

/// Builds the document that describes the service.
pub fn did_document(service_did: &str, hostname: &str) -> (doc: DidDocument)
    ensures
        doc@ == did_document_of(service_did@, hostname@),
{
    let mut context: Vec<String> = Vec::new();
    context.push(String::from_str("https://www.w3.org/ns/did/v1"));
    let mut service: Vec<ServiceEndpoint> = Vec::new();
    service.push(
        ServiceEndpoint {
            id: String::from_str("#bsky_fg"),
            service_type: String::from_str("BskyFeedGenerator"),
            service_endpoint: String::from_str("https://").concat(hostname),
        },
    );
    let doc = DidDocument { context, id: String::from_str(service_did), service };
    assert(doc@.context =~= did_document_of(service_did@, hostname@).context);
    assert(doc@.service =~= did_document_of(service_did@, hostname@).service);
    doc
}

/// The DID of a service that is reached at `hostname`.
pub fn service_did_for_host(hostname: &str) -> (did: String)
    ensures
        did@ == "did:web:"@ + hostname@,
{
    String::from_str("did:web:").concat(hostname)
}

/// The banner served at the root.
pub fn root() -> (banner: &'static str)
    ensures
        banner@ == BANNER@,
{
    BANNER
}

} // verus!
