//! Plain data carried between the index, the handlers and the HTTP surface.

use vstd::prelude::*;

verus! {

/// Query parameters of a feed-skeleton request.
#[derive(Debug)]
pub struct FeedSkeletonParams {
    pub feed: String,
    pub limit: Option<i32>,
    pub cursor: Option<String>,
}

/// One entry of a skeleton feed: the URI of a post.
#[derive(Debug)]
pub struct SkeletonFeedPost {
    pub post: String,
}

/// A page of a skeleton feed with the cursor that leads to the next page.
#[derive(Debug)]
pub struct FeedSkeletonResponse {
    pub cursor: Option<String>,
    pub feed: Vec<SkeletonFeedPost>,
}

/// A service entry of a DID document.
#[derive(Debug)]
pub struct ServiceEndpoint {
    pub id: String,
    pub service_type: String,
    pub service_endpoint: String,
}

/// The DID document that the service publishes about itself.
#[derive(Debug)]
pub struct DidDocument {
    pub context: Vec<String>,
    pub id: String,
    pub service: Vec<ServiceEndpoint>,
}

/// An indexed post. Instants are microseconds since the Unix epoch, UTC.
#[derive(Debug)]
pub struct Post {
    pub uri: String,
    pub cid: String,
    pub author_did: String,
    pub text: String,
    pub created_at: i64,
    pub indexed_at: i64,
}

/// An indexed follow edge. Instants are microseconds since the Unix epoch, UTC.
#[derive(Debug)]
pub struct Follow {
    pub uri: String,
    pub follower_did: String,
    pub target_did: String,
    pub created_at: i64,
    pub indexed_at: i64,
}

/// A requester that has been served a feed, with the instants of the last request and of
/// the last reconciliation of its follow set.
#[derive(Debug)]
pub struct ActiveUser {
    pub did: String,
    pub last_feed_request: i64,
    pub last_follow_sync: Option<i64>,
}

/// The claims of a request token: issuer, audience and expiry in seconds since the epoch.
#[derive(Debug)]
pub struct JwtClaims {
    pub iss: String,
    pub aud: String,
    pub exp: i64,
}

/// The error envelope of the HTTP surface.
#[derive(Debug)]
pub struct ErrorResponse {
    pub error: String,
    pub message: String,
}

/// Mathematical value of a [`Post`].
pub ghost struct PostView {
    pub uri: Seq<char>,
    pub cid: Seq<char>,
    pub author_did: Seq<char>,
    pub text: Seq<char>,
    pub created_at: i64,
    pub indexed_at: i64,
}

/// Mathematical value of a [`Follow`].
pub ghost struct FollowView {
    pub uri: Seq<char>,
    pub follower_did: Seq<char>,
    pub target_did: Seq<char>,
    pub created_at: i64,
    pub indexed_at: i64,
}

/// Mathematical value of an [`ActiveUser`].
pub ghost struct ActiveUserView {
    pub did: Seq<char>,
    pub last_feed_request: i64,
    pub last_follow_sync: Option<i64>,
}

/// Mathematical value of [`JwtClaims`].
pub ghost struct JwtClaimsView {
    pub iss: Seq<char>,
    pub aud: Seq<char>,
    pub exp: i64,
}

/// Mathematical value of a [`FeedSkeletonResponse`]: the cursor and the post URIs in order.
pub ghost struct FeedSkeletonView {
    pub cursor: Option<Seq<char>>,
    pub feed: Seq<Seq<char>>,
}

/// Mathematical value of an [`ErrorResponse`].
pub ghost struct ErrorView {
    pub error: Seq<char>,
    pub message: Seq<char>,
}

/// Mathematical value of a [`ServiceEndpoint`].
pub ghost struct ServiceEndpointView {
    pub id: Seq<char>,
    pub service_type: Seq<char>,
    pub service_endpoint: Seq<char>,
}

/// Mathematical value of a [`DidDocument`].
pub ghost struct DidDocumentView {
    pub context: Seq<Seq<char>>,
    pub id: Seq<char>,
    pub service: Seq<ServiceEndpointView>,
}

impl View for Post {
    type V = PostView;

    open spec fn view(&self) -> PostView {
        PostView {
            uri: self.uri@,
            cid: self.cid@,
            author_did: self.author_did@,
            text: self.text@,
            created_at: self.created_at,
            indexed_at: self.indexed_at,
        }
    }
}

impl View for Follow {
    type V = FollowView;

    open spec fn view(&self) -> FollowView {
        FollowView {
            uri: self.uri@,
            follower_did: self.follower_did@,
            target_did: self.target_did@,
            created_at: self.created_at,
            indexed_at: self.indexed_at,
        }
    }
}

impl View for ActiveUser {
    type V = ActiveUserView;

    open spec fn view(&self) -> ActiveUserView {
        ActiveUserView {
            did: self.did@,
            last_feed_request: self.last_feed_request,
            last_follow_sync: self.last_follow_sync,
        }
    }
}

impl View for JwtClaims {
    type V = JwtClaimsView;

    open spec fn view(&self) -> JwtClaimsView {
        JwtClaimsView { iss: self.iss@, aud: self.aud@, exp: self.exp }
    }
}

impl View for SkeletonFeedPost {
    type V = Seq<char>;

    open spec fn view(&self) -> Seq<char> {
        self.post@
    }
}

impl View for FeedSkeletonResponse {
    type V = FeedSkeletonView;

    open spec fn view(&self) -> FeedSkeletonView {
        FeedSkeletonView {
            cursor: match self.cursor {
                Some(c) => Some(c@),
                None => None,
            },
            feed: self.feed@.map_values(|e: SkeletonFeedPost| e@),
        }
    }
}

impl View for ErrorResponse {
    type V = ErrorView;

    open spec fn view(&self) -> ErrorView {
        ErrorView { error: self.error@, message: self.message@ }
    }
}

impl View for ServiceEndpoint {
    type V = ServiceEndpointView;

    open spec fn view(&self) -> ServiceEndpointView {
        ServiceEndpointView {
            id: self.id@,
            service_type: self.service_type@,
            service_endpoint: self.service_endpoint@,
        }
    }
}

impl View for DidDocument {
    type V = DidDocumentView;

    open spec fn view(&self) -> DidDocumentView {
        DidDocumentView {
            context: self.context@.map_values(|c: String| c@),
            id: self.id@,
            service: self.service@.map_values(|s: ServiceEndpoint| s@),
        }
    }
}

impl Post {
    /// A copy with the same value.
    pub fn duplicate(&self) -> (r: Post)
        ensures
            r@ == self@,
    {
        Post {
            uri: self.uri.clone(),
            cid: self.cid.clone(),
            author_did: self.author_did.clone(),
            text: self.text.clone(),
            created_at: self.created_at,
            indexed_at: self.indexed_at,
        }
    }
}

impl Follow {
    /// A copy with the same value.
    pub fn duplicate(&self) -> (r: Follow)
        ensures
            r@ == self@,
    {
        Follow {
            uri: self.uri.clone(),
            follower_did: self.follower_did.clone(),
            target_did: self.target_did.clone(),
            created_at: self.created_at,
            indexed_at: self.indexed_at,
        }
    }
}

/// The values of a sequence of posts, in order.
pub open spec fn post_rows(v: Seq<Post>) -> Seq<PostView> {
    v.map_values(|p: Post| p@)
}

/// The values of a sequence of follows, in order.
pub open spec fn follow_rows(v: Seq<Follow>) -> Seq<FollowView> {
    v.map_values(|f: Follow| f@)
}

/// The values of a sequence of active-user records, in order.
pub open spec fn user_rows(v: Seq<ActiveUser>) -> Seq<ActiveUserView> {
    v.map_values(|u: ActiveUser| u@)
}

/// The values of a sequence of strings, in order.
pub open spec fn texts(v: Seq<String>) -> Seq<Seq<char>> {
    v.map_values(|s: String| s@)
}

} // verus!
