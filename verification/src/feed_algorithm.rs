//! The feed: the posts of followed accounts, newest first, without reposts.

use vstd::prelude::*;
use crate::types::{Post, PostView, FeedSkeletonResponse, FeedSkeletonView, SkeletonFeedPost};
use crate::types::post_rows;
use crate::record::string_value;
use crate::database::{Database, IndexView, cursor_instant};
use crate::model::{is_feed_page, page_capacity, uris_of};
use crate::instant::{format_rfc3339, rfc3339_text};

verus! {

/// The page size where the request names none.
pub const DEFAULT_LIMIT: i32 = 50;

/// The largest page size.
pub const MAX_LIMIT: i32 = 100;

/// The page size that a request gets: the one it names, `DEFAULT_LIMIT` where it names
/// none, and never more than `MAX_LIMIT`.
pub open spec fn effective_limit(limit: Option<i32>) -> i32 {
    match limit {
        Some(l) => if l < MAX_LIMIT {
            l
        } else {
            MAX_LIMIT
        },
        None => DEFAULT_LIMIT,
    }
}

/// The skeleton of a page: the URIs of its posts and, as the cursor, the creation instant
/// of its last post as RFC 3339 text. An empty page has no cursor.
pub open spec fn skeleton_of(page: Seq<PostView>) -> FeedSkeletonView {
    FeedSkeletonView {
        cursor: if page.len() == 0 {
            None
        } else {
            rfc3339_text(page.last().created_at)
        },
        feed: uris_of(page),
    }
}

/// The skeleton without entries.
pub open spec fn empty_skeleton() -> FeedSkeletonView {
    FeedSkeletonView { cursor: None, feed: Seq::empty() }
}

/// `response` is the skeleton of `page`, and `page` is the page of the feed of `did` that
/// a request with this limit and cursor is due.
pub open spec fn is_skeleton_of_page(
    index: IndexView,
    did: Seq<char>,
    limit: Option<i32>,
    cursor: Option<Seq<char>>,
    now: i64,
    response: FeedSkeletonView,
    page: Seq<PostView>,
) -> bool {
    &&& is_feed_page(
        index.posts,
        index.follows,
        did,
        cursor_instant(cursor, now),
        page_capacity(effective_limit(limit)),
        page,
    )
    &&& response == skeleton_of(page)
}

/// `response` answers a feed request of `did` on `index`: it is the skeleton of the page
/// of that feed for the effective limit and the cursor.
pub open spec fn is_feed_response(
    index: IndexView,
    did: Seq<char>,
    limit: Option<i32>,
    cursor: Option<Seq<char>>,
    now: i64,
    response: FeedSkeletonView,
) -> bool {
    exists|page: Seq<PostView>| is_skeleton_of_page(index, did, limit, cursor, now, response, page)
}

/// Builds the skeleton of a page of posts.
pub fn skeleton_from_posts(page: &Vec<Post>) -> (response: FeedSkeletonResponse)
    ensures
        response@ == skeleton_of(post_rows(page@)),
{
    let mut feed: Vec<SkeletonFeedPost> = Vec::new();
    let mut i: usize = 0;
    while i < page.len()
        invariant
            i <= page.len(),
            feed@.map_values(|e: SkeletonFeedPost| e@) =~= uris_of(post_rows(page@).take(i as int)),
        decreases page.len() - i,
    {
        let ghost listed = feed@.map_values(|e: SkeletonFeedPost| e@);
        let entry = SkeletonFeedPost { post: page[i].uri.clone() };
        assert(entry@ == post_rows(page@)[i as int].uri);
        feed.push(entry);
        assert(feed@.map_values(|e: SkeletonFeedPost| e@) =~= listed.push(entry@));
        assert(post_rows(page@).take(i + 1) =~= post_rows(page@).take(i as int).push(
            post_rows(page@)[i as int],
        ));
        i += 1;
    }
    assert(post_rows(page@).take(i as int) =~= post_rows(page@));
    let cursor = if page.len() == 0 {
        None
    } else {
        assert(post_rows(page@).last().created_at == page@[page.len() - 1].created_at);
        format_rfc3339(page[page.len() - 1].created_at)
    };
    FeedSkeletonResponse { cursor, feed }
}

/// The feed of followed accounts without reposts, served from an index.
pub struct FollowingNoRepostsFeed<'a> {
    db: &'a Database,
}

impl<'a> FollowingNoRepostsFeed<'a> {
    /// The index that the feed is served from.
    pub closed spec fn index(&self) -> IndexView {
        self.db@
    }

    /// A feed served from `db`.
    pub fn new(db: &'a Database) -> (feed: Self)
        ensures
            feed.index() == db@,
    {
        FollowingNoRepostsFeed { db }
    }

    /// Answers a feed request at the instant `now`. An anonymous requester gets an empty
    /// feed; any other gets the page of its feed that follows `cursor`, of the effective
    /// limit, with the cursor of the next page.
    pub fn generate_feed(
        &self,
        requester_did: Option<String>,
        limit: Option<i32>,
        cursor: Option<String>,
        now: i64,
    ) -> (response: FeedSkeletonResponse)
        ensures
            match requester_did {
                None => response@ == empty_skeleton(),
                Some(did) => is_feed_response(
                    self.index(),
                    did@,
                    limit,
                    string_value(cursor),
                    now,
                    response@,
                ),
            },
    {
        let follower_did = match requester_did {
            Some(did) => did,
            None => {
                let response = FeedSkeletonResponse { cursor: None, feed: Vec::new() };
                assert(response@.feed =~= Seq::<Seq<char>>::empty());
                assert(response@ == empty_skeleton());
                return response;
            },
        };
        let capped: i32 = match limit {
            Some(l) => if l < MAX_LIMIT {
                l
            } else {
                MAX_LIMIT
            },
            None => DEFAULT_LIMIT,
        };
        let page = match &cursor {
            Some(c) => self.db.get_following_posts(follower_did.as_str(), capped, Some(c.as_str()), now),
            None => self.db.get_following_posts(follower_did.as_str(), capped, None, now),
        };
        let response = skeleton_from_posts(&page);
        assert(is_skeleton_of_page(
            self.index(),
            follower_did@,
            limit,
            string_value(cursor),
            now,
            response@,
            post_rows(page@),
        ));
        response
    }
}

} // verus!
