//! The index: posts, follows and active requesters, with the operations that read and
//! change them. Every operation is stated over the row sequences of `model`.

use vstd::prelude::*;
use vstd::string::StringExecFns;
use crate::types::{Post, Follow, ActiveUser, PostView, FollowView, ActiveUserView};
use crate::types::{post_rows, follow_rows, user_rows, texts};
use crate::model::{
    has_post, post_slot, distinct_posts, with_post, other_post, without_post, indexed_since,
    indexed_before, posts_since, uris_of, stale_uris, hours_before, days_before,
};
use crate::model::{
    has_follow, follow_slot, distinct_follows, with_follow, other_follow, without_follow,
    follows_target, has_follower, still_followed, synced_follows, follower_among, follows_of,
    follows_from, target_names, targets_of,
};
use crate::model::{
    has_user, user_slot, distinct_users, with_request, with_sync, request_stamps, active_flags,
    dids_at, is_active_listing,
};
use crate::model::{creation_stamps, feed_flags, posts_at, page_capacity, is_feed_page};
use crate::model::{
    lemma_filter_next, lemma_filter_all, lemma_post_slot, lemma_follow_slot, lemma_user_slot,
    lemma_with_post_distinct, lemma_with_follow_distinct, lemma_filter_posts_distinct,
    lemma_filter_follows_distinct, MICROS_PER_HOUR, MICROS_PER_DAY,
};
use crate::ranking::{top_ranked, places, is_ranked_selection};
use crate::instant::{parse_rfc3339, rfc3339_micros, instant_or};
use crate::text::{same_text, holds_text};

verus! {

/// The index. No two posts share a URI, no two follows share a URI, and no two
/// active-user records share a requester.
pub struct Database {
    posts: Vec<Post>,
    follows: Vec<Follow>,
    active_users: Vec<ActiveUser>,
}

/// Mathematical value of the index: its three tables.
pub ghost struct IndexView {
    pub posts: Seq<PostView>,
    pub follows: Seq<FollowView>,
    pub active_users: Seq<ActiveUserView>,
}

/// The instant before which a feed page is taken: the instant that the cursor denotes, or
/// `now` where the cursor is absent or denotes none.
pub open spec fn cursor_instant(cursor: Option<Seq<char>>, now: i64) -> i64 {
    match cursor {
        Some(c) => instant_or(rfc3339_micros(c), now),
        None => now,
    }
}

impl Database {
    /// The rows of the post table.
    pub closed spec fn posts(&self) -> Seq<PostView> {
        post_rows(self.posts@)
    }

    /// The rows of the follow table.
    pub closed spec fn follows(&self) -> Seq<FollowView> {
        follow_rows(self.follows@)
    }

    /// The rows of the active-user table.
    pub closed spec fn active_users(&self) -> Seq<ActiveUserView> {
        user_rows(self.active_users@)
    }

    /// The three tables together.
    pub open spec fn view(&self) -> IndexView {
        IndexView {
            posts: self.posts(),
            follows: self.follows(),
            active_users: self.active_users(),
        }
    }

    /// The index is well formed: each table holds every key once.
    pub open spec fn wf(&self) -> bool {
        &&& distinct_posts(self.posts())
        &&& distinct_follows(self.follows())
        &&& distinct_users(self.active_users())
    }

    /// An index without rows.
    pub fn new() -> (db: Database)
        ensures
            db.wf(),
            db.posts() == Seq::<PostView>::empty(),
            db.follows() == Seq::<FollowView>::empty(),
            db.active_users() == Seq::<ActiveUserView>::empty(),
    {
        let db = Database { posts: Vec::new(), follows: Vec::new(), active_users: Vec::new() };
        assert(db.posts() =~= Seq::<PostView>::empty());
        assert(db.follows() =~= Seq::<FollowView>::empty());
        assert(db.active_users() =~= Seq::<ActiveUserView>::empty());
        db
    }

    fn find_post(&self, uri: &str) -> (r: Option<usize>)
        ensures
            match r {
                Some(i) => i < self.posts.len() && self.posts()[i as int].uri == uri@,
                None => !has_post(self.posts(), uri@),
            },
    {
        let mut i: usize = 0;
        while i < self.posts.len()
            invariant
                i <= self.posts.len(),
                forall|k: int| 0 <= k < i ==> (#[trigger] self.posts()[k]).uri != uri@,
            decreases self.posts.len() - i,
        {
            if same_text(self.posts[i].uri.as_str(), uri) {
                return Some(i);
            }
            i += 1;
        }
        None
    }

    fn find_follow(&self, uri: &str) -> (r: Option<usize>)
        ensures
            match r {
                Some(i) => i < self.follows.len() && self.follows()[i as int].uri == uri@,
                None => !has_follow(self.follows(), uri@),
            },
    {
        let mut i: usize = 0;
        while i < self.follows.len()
            invariant
                i <= self.follows.len(),
                forall|k: int| 0 <= k < i ==> (#[trigger] self.follows()[k]).uri != uri@,
            decreases self.follows.len() - i,
        {
            if same_text(self.follows[i].uri.as_str(), uri) {
                return Some(i);
            }
            i += 1;
        }
        None
    }

    fn find_user(&self, did: &str) -> (r: Option<usize>)
        ensures
            match r {
                Some(i) => i < self.active_users.len() && self.active_users()[i as int].did == did@,
                None => !has_user(self.active_users(), did@),
            },
    {
        let mut i: usize = 0;
        while i < self.active_users.len()
            invariant
                i <= self.active_users.len(),
                forall|k: int| 0 <= k < i ==> (#[trigger] self.active_users()[k]).did != did@,
            decreases self.active_users.len() - i,
        {
            if same_text(self.active_users[i].did.as_str(), did) {
                return Some(i);
            }
            i += 1;
        }
        None
    }

    /// Keeps the posts that `filter` admits, in their order.
    fn keep_posts(&mut self, filter: &PostFilter<'_>)
        requires
            old(self).wf(),
        ensures
            final(self).wf(),
            final(self).posts() == old(self).posts().filter(filter.keeps()),
            final(self).follows() == old(self).follows(),
            final(self).active_users() == old(self).active_users(),
    {
        proof {
            lemma_filter_posts_distinct(self.posts(), filter.keeps());
        }
        let ghost before = self.posts();
        let mut kept: Vec<Post> = Vec::new();
        let mut i: usize = 0;
        assert(before.take(0) =~= Seq::<PostView>::empty());
        assert(before.take(0).filter(filter.keeps()) =~= Seq::<PostView>::empty()) by {
            reveal(Seq::filter);
        }
        while i < self.posts.len()
            invariant
                i <= self.posts.len(),
                before == post_rows(self.posts@),
                post_rows(kept@) =~= before.take(i as int).filter(filter.keeps()),
            decreases self.posts.len() - i,
        {
            proof {
                lemma_filter_next(before, filter.keeps(), i as int);
            }
            if filter.admits(&self.posts[i]) {
                kept.push(self.posts[i].duplicate());
            }
            i += 1;
        }
        assert(before.take(i as int) =~= before);
        self.posts = kept;
    }

    /// Keeps the follows that `filter` admits, in their order.
    fn keep_follows(&mut self, filter: &FollowFilter<'_>)
        requires
            old(self).wf(),
        ensures
            final(self).wf(),
            final(self).follows() == old(self).follows().filter(filter.keeps()),
            final(self).posts() == old(self).posts(),
            final(self).active_users() == old(self).active_users(),
    {
        proof {
            lemma_filter_follows_distinct(self.follows(), filter.keeps());
        }
        let ghost before = self.follows();
        let mut kept: Vec<Follow> = Vec::new();
        let mut i: usize = 0;
        assert(before.take(0) =~= Seq::<FollowView>::empty());
        assert(before.take(0).filter(filter.keeps()) =~= Seq::<FollowView>::empty()) by {
            reveal(Seq::filter);
        }
        while i < self.follows.len()
            invariant
                i <= self.follows.len(),
                before == follow_rows(self.follows@),
                follow_rows(kept@) =~= before.take(i as int).filter(filter.keeps()),
            decreases self.follows.len() - i,
        {
            proof {
                lemma_filter_next(before, filter.keeps(), i as int);
            }
            if filter.admits(&self.follows[i]) {
                kept.push(self.follows[i].duplicate());
            }
            i += 1;
        }
        assert(before.take(i as int) =~= before);
        self.follows = kept;
    }

    /// Writes a post: a post of the same URI is replaced, any other is left as it was.
    pub fn insert_post(&mut self, post: &Post)
        requires
            old(self).wf(),
        ensures
            final(self).wf(),
            final(self).posts() == with_post(old(self).posts(), post@),
            final(self).follows() == old(self).follows(),
            final(self).active_users() == old(self).active_users(),
    {
        proof {
            lemma_with_post_distinct(self.posts(), post@);
        }
        let ghost before = self.posts();
        match self.find_post(post.uri.as_str()) {
            Some(i) => {
                proof {
                    lemma_post_slot(before, i as int);
                }
                self.posts.set(i, post.duplicate());
                assert(post_rows(self.posts@) =~= with_post(before, post@));
            },
            None => {
                self.posts.push(post.duplicate());
                assert(post_rows(self.posts@) =~= with_post(before, post@));
            },
        }
    }

    /// Deletes the post `uri`; where the index holds none, nothing changes.
    pub fn delete_post(&mut self, uri: &str)
        requires
            old(self).wf(),
        ensures
            final(self).wf(),
            final(self).posts() == without_post(old(self).posts(), uri@),
            !has_post(old(self).posts(), uri@) ==> final(self).posts() == old(self).posts(),
            final(self).follows() == old(self).follows(),
            final(self).active_users() == old(self).active_users(),
    {
        proof {
            if !has_post(self.posts(), uri@) {
                lemma_filter_all(self.posts(), other_post(uri@));
            }
        }
        self.keep_posts(&PostFilter::OtherUri(uri));
    }

    /// Expires the posts that were indexed more than `hours` hours before `now`.
    pub fn cleanup_old_posts(&mut self, hours: i64, now: i64)
        requires
            old(self).wf(),
        ensures
            final(self).wf(),
            final(self).posts() == posts_since(old(self).posts(), hours_before(now, hours)),
            final(self).follows() == old(self).follows(),
            final(self).active_users() == old(self).active_users(),
    {
        let span: i128 = MICROS_PER_HOUR as i128;
        assert(span == 3_600_000_000);
        let cutoff: i128 = (now as i128) - (hours as i128) * span;
        self.keep_posts(&PostFilter::IndexedSince(cutoff));
    }

    /// The URIs of the posts that `cleanup_old_posts` would expire for the same `hours` and
    /// `now`, in table order.
    pub fn stale_posts(&self, hours: i64, now: i64) -> (uris: Vec<String>)
        ensures
            texts(uris@) == stale_uris(self.posts(), hours_before(now, hours)),
    {
        let span: i128 = MICROS_PER_HOUR as i128;
        assert(span == 3_600_000_000);
        let cutoff: i128 = (now as i128) - (hours as i128) * span;
        let ghost rows = self.posts();
        let ghost stale = indexed_before(cutoff as int);
        let mut uris: Vec<String> = Vec::new();
        let mut i: usize = 0;
        assert(rows.take(0) =~= Seq::<PostView>::empty());
        assert(rows.take(0).filter(stale) =~= Seq::<PostView>::empty()) by {
            reveal(Seq::filter);
        }
        while i < self.posts.len()
            invariant
                i <= self.posts.len(),
                rows == post_rows(self.posts@),
                stale == indexed_before(cutoff as int),
                texts(uris@) =~= uris_of(rows.take(i as int).filter(stale)),
            decreases self.posts.len() - i,
        {
            proof {
                lemma_filter_next(rows, stale, i as int);
            }
            if (self.posts[i].indexed_at as i128) < cutoff {
                let ghost listed = texts(uris@);
                let uri = self.posts[i].uri.clone();
                assert(uri@ == rows[i as int].uri);
                uris.push(uri);
                assert(texts(uris@) =~= listed.push(uri@));
                assert(uris_of(rows.take(i as int).filter(stale).push(rows[i as int])) =~= uris_of(
                    rows.take(i as int).filter(stale),
                ).push(uri@));
            }
            i += 1;
        }
        assert(rows.take(i as int) =~= rows);
        uris
    }

    /// Writes a follow: a follow of the same URI is replaced, any other is left as it was.
    pub fn insert_follow(&mut self, follow: &Follow)
        requires
            old(self).wf(),
        ensures
            final(self).wf(),
            final(self).follows() == with_follow(old(self).follows(), follow@),
            final(self).posts() == old(self).posts(),
            final(self).active_users() == old(self).active_users(),
    {
        proof {
            lemma_with_follow_distinct(self.follows(), follow@);
        }
        let ghost before = self.follows();
        match self.find_follow(follow.uri.as_str()) {
            Some(i) => {
                proof {
                    lemma_follow_slot(before, i as int);
                }
                self.follows.set(i, follow.duplicate());
                assert(follow_rows(self.follows@) =~= with_follow(before, follow@));
            },
            None => {
                self.follows.push(follow.duplicate());
                assert(follow_rows(self.follows@) =~= with_follow(before, follow@));
            },
        }
    }

    /// Deletes the follow `uri`; where the index holds none, nothing changes.
    pub fn delete_follow(&mut self, uri: &str)
        requires
            old(self).wf(),
        ensures
            final(self).wf(),
            final(self).follows() == without_follow(old(self).follows(), uri@),
            !has_follow(old(self).follows(), uri@) ==> final(self).follows() == old(
                self,
            ).follows(),
            final(self).posts() == old(self).posts(),
            final(self).active_users() == old(self).active_users(),
    {
        proof {
            if !has_follow(self.follows(), uri@) {
                lemma_filter_all(self.follows(), other_follow(uri@));
            }
        }
        self.keep_follows(&FollowFilter::OtherUri(uri));
    }

    /// Reconciles the follows of `user_did` against the targets that the network lists
    /// now: a follow of `user_did` whose target is not listed is deleted, every other
    /// follow stays.
    pub fn sync_follows_for_user(&mut self, user_did: &str, current_target_dids: Vec<String>)
        requires
            old(self).wf(),
        ensures
            final(self).wf(),
            final(self).follows() == synced_follows(
                old(self).follows(),
                user_did@,
                texts(current_target_dids@),
            ),
            final(self).posts() == old(self).posts(),
            final(self).active_users() == old(self).active_users(),
    {
        self.keep_follows(&FollowFilter::StillFollowed(user_did, &current_target_dids));
    }

    /// Drops the follows of every follower that `keep` does not list.
    pub fn retain_followers(&mut self, keep: &Vec<String>)
        requires
            old(self).wf(),
        ensures
            final(self).wf(),
            final(self).follows() == follows_of(old(self).follows(), texts(keep@)),
            final(self).posts() == old(self).posts(),
            final(self).active_users() == old(self).active_users(),
    {
        self.keep_follows(&FollowFilter::FollowerAmong(keep));
    }

    /// Tells whether some follow leads from `follower_did` to `target_did`.
    pub fn is_following(&self, follower_did: &str, target_did: &str) -> (r: bool)
        ensures
            r == follows_target(self.follows(), follower_did@, target_did@),
    {
        let mut i: usize = 0;
        while i < self.follows.len()
            invariant
                i <= self.follows.len(),
                forall|k: int|
                    0 <= k < i ==> !((#[trigger] self.follows()[k]).follower_did == follower_did@
                        && self.follows()[k].target_did == target_did@),
            decreases self.follows.len() - i,
        {
            if same_text(self.follows[i].follower_did.as_str(), follower_did) && same_text(
                self.follows[i].target_did.as_str(),
                target_did,
            ) {
                assert(self.follows()[i as int].follower_did == follower_did@);
                return true;
            }
            i += 1;
        }
        false
    }

    /// Tells whether some follow starts at `follower_did`.
    pub fn has_follows(&self, follower_did: &str) -> (r: bool)
        ensures
            r == has_follower(self.follows(), follower_did@),
    {
        let mut i: usize = 0;
        while i < self.follows.len()
            invariant
                i <= self.follows.len(),
                forall|k: int|
                    0 <= k < i ==> (#[trigger] self.follows()[k]).follower_did != follower_did@,
            decreases self.follows.len() - i,
        {
            if same_text(self.follows[i].follower_did.as_str(), follower_did) {
                assert(self.follows()[i as int].follower_did == follower_did@);
                return true;
            }
            i += 1;
        }
        false
    }

    /// Records a feed request of `user_did` at `now`.
    pub fn record_feed_request(&mut self, user_did: &str, now: i64)
        requires
            old(self).wf(),
        ensures
            final(self).wf(),
            final(self).active_users() == with_request(old(self).active_users(), user_did@, now),
            final(self).posts() == old(self).posts(),
            final(self).follows() == old(self).follows(),
    {
        let ghost before = self.active_users();
        match self.find_user(user_did) {
            Some(i) => {
                proof {
                    lemma_user_slot(before, i as int);
                }
                let row = ActiveUser {
                    did: self.active_users[i].did.clone(),
                    last_feed_request: now,
                    last_follow_sync: self.active_users[i].last_follow_sync,
                };
                self.active_users.set(i, row);
                assert(user_rows(self.active_users@) =~= with_request(before, user_did@, now));
                assert(distinct_users(user_rows(self.active_users@))) by {
                    let after = user_rows(self.active_users@);
                    assert forall|a: int, b: int| 0 <= a < b < after.len() implies (
                    #[trigger] after[a]).did != (#[trigger] after[b]).did by {
                        assert(after[a].did == before[a].did);
                        assert(after[b].did == before[b].did);
                    }
                }
            },
            None => {
                let row = ActiveUser {
                    did: String::from_str(user_did),
                    last_feed_request: now,
                    last_follow_sync: None,
                };
                self.active_users.push(row);
                assert(user_rows(self.active_users@) =~= with_request(before, user_did@, now));
                assert(distinct_users(user_rows(self.active_users@))) by {
                    let after = user_rows(self.active_users@);
                    assert forall|a: int, b: int| 0 <= a < b < after.len() implies (
                    #[trigger] after[a]).did != (#[trigger] after[b]).did by {
                        assert(after[a] == before[a]);
                        if b < before.len() {
                            assert(after[b] == before[b]);
                        }
                    }
                }
            },
        }
    }

    /// Stamps the record of `user_did` with the instant of a finished reconciliation; a
    /// requester without a record gets none.
    pub fn update_follow_sync(&mut self, user_did: &str, now: i64)
        requires
            old(self).wf(),
        ensures
            final(self).wf(),
            final(self).active_users() == with_sync(old(self).active_users(), user_did@, now),
            final(self).posts() == old(self).posts(),
            final(self).follows() == old(self).follows(),
    {
        let ghost before = self.active_users();
        match self.find_user(user_did) {
            Some(i) => {
                proof {
                    lemma_user_slot(before, i as int);
                }
                let row = ActiveUser {
                    did: self.active_users[i].did.clone(),
                    last_feed_request: self.active_users[i].last_feed_request,
                    last_follow_sync: Some(now),
                };
                self.active_users.set(i, row);
                assert(user_rows(self.active_users@) =~= with_sync(before, user_did@, now));
                assert(distinct_users(user_rows(self.active_users@))) by {
                    let after = user_rows(self.active_users@);
                    assert forall|a: int, b: int| 0 <= a < b < after.len() implies (
                    #[trigger] after[a]).did != (#[trigger] after[b]).did by {
                        assert(after[a].did == before[a].did);
                        assert(after[b].did == before[b].did);
                    }
                }
            },
            None => {},
        }
    }

    /// Lists the requesters that asked for a feed within the last `days` days before
    /// `now`, the latest request first.
    pub fn get_active_users(&self, days: i64, now: i64) -> (dids: Vec<String>)
        ensures
            is_active_listing(self.active_users(), days_before(now, days), texts(dids@)),
    {
        let span: i128 = MICROS_PER_DAY as i128;
        assert(span == 86_400_000_000);
        let cutoff: i128 = (now as i128) - (days as i128) * span;
        let n: usize = self.active_users.len();
        let mut stamps: Vec<i64> = Vec::new();
        let mut flags: Vec<bool> = Vec::new();
        let mut i: usize = 0;
        while i < n
            invariant
                i <= n,
                n == self.active_users.len(),
                cutoff == days_before(now, days),
                stamps@ =~= request_stamps(self.active_users()).take(i as int),
                flags@ =~= active_flags(self.active_users(), cutoff as int).take(i as int),
            decreases n - i,
        {
            stamps.push(self.active_users[i].last_feed_request);
            flags.push((self.active_users[i].last_feed_request as i128) > cutoff);
            i += 1;
        }
        assert(stamps@ =~= request_stamps(self.active_users()));
        assert(flags@ =~= active_flags(self.active_users(), cutoff as int));
        let picked = top_ranked(&stamps, &flags, n);
        let ghost rows = self.active_users();
        let mut dids: Vec<String> = Vec::new();
        let mut k: usize = 0;
        while k < picked.len()
            invariant
                k <= picked.len(),
                n == self.active_users.len(),
                rows == self.active_users(),
                is_ranked_selection(stamps@, flags@, n as int, places(picked@)),
                stamps@.len() == n,
                texts(dids@) =~= dids_at(rows, places(picked@).take(k as int)),
            decreases picked.len() - k,
        {
            assert(0 <= places(picked@)[k as int] < n);
            assert(places(picked@).take(k + 1) =~= places(picked@).take(k as int).push(
                picked@[k as int] as int,
            ));
            let ghost listed = texts(dids@);
            let did = self.active_users[picked[k]].did.clone();
            assert(did@ == rows[picked@[k as int] as int].did);
            dids.push(did);
            assert(texts(dids@) =~= listed.push(did@));
            assert(dids_at(rows, places(picked@).take(k + 1)) =~= dids_at(
                rows,
                places(picked@).take(k as int),
            ).push(did@));
            k += 1;
        }
        assert(places(picked@).take(k as int) =~= places(picked@));
        dids
    }

    /// The feed page of `follower_did` before the instant `before`: up to `limit` posts of
    /// followed authors created before that instant, newest first. A `limit` below one
    /// gives an empty page.
    pub fn posts_before(&self, follower_did: &str, limit: i32, before: i64) -> (page: Vec<Post>)
        ensures
            is_feed_page(
                self.posts(),
                self.follows(),
                follower_did@,
                before,
                page_capacity(limit),
                post_rows(page@),
            ),
    {
        let capacity: usize = if limit <= 0 {
            0
        } else {
            limit as usize
        };
        let n: usize = self.posts.len();
        let mut stamps: Vec<i64> = Vec::new();
        let mut flags: Vec<bool> = Vec::new();
        let mut i: usize = 0;
        while i < n
            invariant
                i <= n,
                n == self.posts.len(),
                stamps@ =~= creation_stamps(self.posts()).take(i as int),
                flags@ =~= feed_flags(self.posts(), self.follows(), follower_did@, before).take(
                    i as int,
                ),
            decreases n - i,
        {
            let fresh = self.posts[i].created_at < before;
            let followed = fresh && self.is_following(
                follower_did,
                self.posts[i].author_did.as_str(),
            );
            stamps.push(self.posts[i].created_at);
            flags.push(followed);
            i += 1;
        }
        assert(stamps@ =~= creation_stamps(self.posts()));
        assert(flags@ =~= feed_flags(self.posts(), self.follows(), follower_did@, before));
        let picked = top_ranked(&stamps, &flags, capacity);
        let ghost rows = self.posts();
        let mut page: Vec<Post> = Vec::new();
        let mut k: usize = 0;
        while k < picked.len()
            invariant
                k <= picked.len(),
                n == self.posts.len(),
                rows == self.posts(),
                is_ranked_selection(stamps@, flags@, capacity as int, places(picked@)),
                stamps@.len() == n,
                post_rows(page@) =~= posts_at(rows, places(picked@).take(k as int)),
            decreases picked.len() - k,
        {
            assert(0 <= places(picked@)[k as int] < n);
            assert(places(picked@).take(k + 1) =~= places(picked@).take(k as int).push(
                picked@[k as int] as int,
            ));
            let ghost listed = post_rows(page@);
            let post = self.posts[picked[k]].duplicate();
            assert(post@ == rows[picked@[k as int] as int]);
            page.push(post);
            assert(post_rows(page@) =~= listed.push(post@));
            assert(posts_at(rows, places(picked@).take(k + 1)) =~= posts_at(
                rows,
                places(picked@).take(k as int),
            ).push(post@));
            k += 1;
        }
        assert(places(picked@).take(k as int) =~= places(picked@));
        page
    }

    /// The feed page of `follower_did` that follows `cursor`: the page before the instant
    /// that the cursor denotes, or before `now` where the cursor is absent or denotes none.
    pub fn get_following_posts(
        &self,
        follower_did: &str,
        limit: i32,
        cursor: Option<&str>,
        now: i64,
    ) -> (page: Vec<Post>)
        ensures
            is_feed_page(
                self.posts(),
                self.follows(),
                follower_did@,
                cursor_instant(
                    match cursor {
                        Some(c) => Some(c@),
                        None => None,
                    },
                    now,
                ),
                page_capacity(limit),
                post_rows(page@),
            ),
    {
        let before: i64 = match cursor {
            Some(c) => match parse_rfc3339(c) {
                Some(t) => t,
                None => now,
            },
            None => now,
        };
        self.posts_before(follower_did, limit, before)
    }

    /// The number of posts in the index.
    pub fn post_count(&self) -> (n: usize)
        ensures
            n == self.posts().len(),
    {
        self.posts.len()
    }

    /// The number of follows in the index.
    pub fn follow_count(&self) -> (n: usize)
        ensures
            n == self.follows().len(),
    {
        self.follows.len()
    }

    /// The post `uri`, where the index holds it.
    pub fn get_post(&self, uri: &str) -> (r: Option<Post>)
        requires
            self.wf(),
        ensures
            match r {
                Some(p) => has_post(self.posts(), uri@) && p@ == self.posts()[post_slot(
                    self.posts(),
                    uri@,
                )],
                None => !has_post(self.posts(), uri@),
            },
    {
        match self.find_post(uri) {
            Some(i) => {
                proof {
                    lemma_post_slot(self.posts(), i as int);
                }
                Some(self.posts[i].duplicate())
            },
            None => None,
        }
    }

    /// The follow `uri`, where the index holds it.
    pub fn get_follow(&self, uri: &str) -> (r: Option<Follow>)
        requires
            self.wf(),
        ensures
            match r {
                Some(f) => has_follow(self.follows(), uri@) && f@ == self.follows()[follow_slot(
                    self.follows(),
                    uri@,
                )],
                None => !has_follow(self.follows(), uri@),
            },
    {
        match self.find_follow(uri) {
            Some(i) => {
                proof {
                    lemma_follow_slot(self.follows(), i as int);
                }
                Some(self.follows[i].duplicate())
            },
            None => None,
        }
    }

    /// The follows of `follower_did`, in table order.
    pub fn follows_by(&self, follower_did: &str) -> (found: Vec<Follow>)
        ensures
            follow_rows(found@) == self.follows().filter(follows_from(follower_did@)),
    {
        let ghost rows = self.follows();
        let ghost own = follows_from(follower_did@);
        let mut found: Vec<Follow> = Vec::new();
        let mut i: usize = 0;
        assert(rows.take(0) =~= Seq::<FollowView>::empty());
        assert(rows.take(0).filter(own) =~= Seq::<FollowView>::empty()) by {
            reveal(Seq::filter);
        }
        while i < self.follows.len()
            invariant
                i <= self.follows.len(),
                rows == follow_rows(self.follows@),
                own == follows_from(follower_did@),
                follow_rows(found@) =~= rows.take(i as int).filter(own),
            decreases self.follows.len() - i,
        {
            proof {
                lemma_filter_next(rows, own, i as int);
            }
            if same_text(self.follows[i].follower_did.as_str(), follower_did) {
                found.push(self.follows[i].duplicate());
            }
            i += 1;
        }
        assert(rows.take(i as int) =~= rows);
        found
    }

    /// The record of the requester `did`, where the index holds one.
    pub fn get_active_user(&self, did: &str) -> (r: Option<ActiveUser>)
        requires
            self.wf(),
        ensures
            match r {
                Some(u) => has_user(self.active_users(), did@) && u@ == self.active_users()[user_slot(
                    self.active_users(),
                    did@,
                )],
                None => !has_user(self.active_users(), did@),
            },
    {
        match self.find_user(did) {
            Some(i) => {
                proof {
                    lemma_user_slot(self.active_users(), i as int);
                }
                Some(
                    ActiveUser {
                        did: self.active_users[i].did.clone(),
                        last_feed_request: self.active_users[i].last_feed_request,
                        last_follow_sync: self.active_users[i].last_follow_sync,
                    },
                )
            },
            None => None,
        }
    }

    /// The targets that `follower_did` follows, in table order, one entry per follow.
    pub fn follow_targets(&self, follower_did: &str) -> (targets: Vec<String>)
        ensures
            texts(targets@) == targets_of(self.follows(), follower_did@),
    {
        let ghost rows = self.follows();
        let ghost own = follows_from(follower_did@);
        let mut targets: Vec<String> = Vec::new();
        let mut i: usize = 0;
        assert(rows.take(0) =~= Seq::<FollowView>::empty());
        assert(rows.take(0).filter(own) =~= Seq::<FollowView>::empty()) by {
            reveal(Seq::filter);
        }
        while i < self.follows.len()
            invariant
                i <= self.follows.len(),
                rows == follow_rows(self.follows@),
                own == follows_from(follower_did@),
                texts(targets@) =~= target_names(rows.take(i as int).filter(own)),
            decreases self.follows.len() - i,
        {
            proof {
                lemma_filter_next(rows, own, i as int);
            }
            if same_text(self.follows[i].follower_did.as_str(), follower_did) {
                let ghost listed = texts(targets@);
                let target = self.follows[i].target_did.clone();
                assert(target@ == rows[i as int].target_did);
                targets.push(target);
                assert(texts(targets@) =~= listed.push(target@));
                assert(target_names(rows.take(i as int).filter(own).push(rows[i as int]))
                    =~= target_names(rows.take(i as int).filter(own)).push(target@));
            }
            i += 1;
        }
        assert(rows.take(i as int) =~= rows);
        targets
    }
}

/// Which posts a sweep of the post table keeps.
enum PostFilter<'a> {
    /// Every post but the one of this URI.
    OtherUri(&'a str),
    /// The posts indexed at this instant or later.
    IndexedSince(i128),
}

impl PostFilter<'_> {
    spec fn keeps(&self) -> spec_fn(PostView) -> bool {
        match self {
            PostFilter::OtherUri(uri) => other_post(uri@),
            PostFilter::IndexedSince(cutoff) => indexed_since(*cutoff as int),
        }
    }

    fn admits(&self, post: &Post) -> (r: bool)
        ensures
            r == (self.keeps())(post@),
    {
        match self {
            PostFilter::OtherUri(uri) => !same_text(post.uri.as_str(), uri),
            PostFilter::IndexedSince(cutoff) => (post.indexed_at as i128) >= *cutoff,
        }
    }
}

/// Which follows a sweep of the follow table keeps.
enum FollowFilter<'a> {
    /// Every follow but the one of this URI.
    OtherUri(&'a str),
    /// The follows of other followers, and those of this follower to a listed target.
    StillFollowed(&'a str, &'a Vec<String>),
    /// The follows of the listed followers.
    FollowerAmong(&'a Vec<String>),
}

impl FollowFilter<'_> {
    spec fn keeps(&self) -> spec_fn(FollowView) -> bool {
        match self {
            FollowFilter::OtherUri(uri) => other_follow(uri@),
            FollowFilter::StillFollowed(user, targets) => still_followed(user@, texts(targets@)),
            FollowFilter::FollowerAmong(keep) => follower_among(texts(keep@)),
        }
    }

    fn admits(&self, follow: &Follow) -> (r: bool)
        ensures
            r == (self.keeps())(follow@),
    {
        match self {
            FollowFilter::OtherUri(uri) => !same_text(follow.uri.as_str(), uri),
            FollowFilter::StillFollowed(user, targets) => !same_text(
                follow.follower_did.as_str(),
                user,
            ) || holds_text(targets, follow.target_did.as_str()),
            FollowFilter::FollowerAmong(keep) => holds_text(keep, follow.follower_did.as_str()),
        }
    }
}

} // verus!
