//! The indexer: what each event of the stream does to the index.

use vstd::prelude::*;
use vstd::string::StringExecFns;
use crate::types::{Post, Follow, PostView, FollowView};
use crate::record::{Record, RecordView, is_repost, record_value};
use crate::database::{Database, IndexView};
use crate::model::{with_post, without_post, with_follow, without_follow};
use crate::instant::{instant_from_text, instant_or, rfc3339_micros};
use crate::text::same_text;

verus! {

/// The collection of posts.
pub const POST_COLLECTION: &'static str = "app.bsky.feed.post";

/// The collection of follows.
pub const FOLLOW_COLLECTION: &'static str = "app.bsky.graph.follow";

/// The operation that creates a record.
pub const CREATE: &'static str = "create";

/// The operation that deletes a record.
pub const DELETE: &'static str = "delete";

/// A commit of the stream: one operation on one record of a repository.
#[derive(Debug)]
pub struct Commit {
    pub collection: String,
    pub rkey: String,
    pub operation: String,
    pub record: Option<Record>,
    pub cid: String,
}

/// An event of the stream. Only commits change the index.
#[derive(Debug)]
pub enum JetstreamEvent {
    Commit { did: String, commit: Commit },
    Account { did: String },
    Identity { did: String },
    Delete { did: String },
}

/// The URI of the record `rkey` in the collection `collection` of the repository `did`.
pub open spec fn record_uri(did: Seq<char>, collection: Seq<char>, rkey: Seq<char>) -> Seq<char> {
    "at://"@ + did + "/"@ + collection + "/"@ + rkey
}

/// The post that a create commit carries.
pub open spec fn post_of_commit(
    did: Seq<char>,
    collection: Seq<char>,
    rkey: Seq<char>,
    record: RecordView,
    cid: Seq<char>,
    now: i64,
) -> PostView {
    PostView {
        uri: record_uri(did, collection, rkey),
        cid,
        author_did: did,
        text: record.text.text_or_empty(),
        created_at: instant_or(rfc3339_micros(record.created_at.text_or_empty()), now),
        indexed_at: now,
    }
}

/// The follow that a create commit carries.
pub open spec fn follow_of_commit(
    did: Seq<char>,
    collection: Seq<char>,
    rkey: Seq<char>,
    record: RecordView,
    now: i64,
) -> FollowView {
    FollowView {
        uri: record_uri(did, collection, rkey),
        follower_did: did,
        target_did: record.subject.text_or_empty(),
        created_at: instant_or(rfc3339_micros(record.created_at.text_or_empty()), now),
        indexed_at: now,
    }
}

/// The post table after a commit on the post collection: a create writes the post unless
/// its record is a repost or missing, a delete removes the post, anything else changes
/// nothing.
pub open spec fn posts_after_commit(
    posts: Seq<PostView>,
    did: Seq<char>,
    collection: Seq<char>,
    rkey: Seq<char>,
    operation: Seq<char>,
    record: Option<RecordView>,
    cid: Seq<char>,
    now: i64,
) -> Seq<PostView> {
    if operation == CREATE@ {
        match record {
            Some(r) => if is_repost(r) {
                posts
            } else {
                with_post(posts, post_of_commit(did, collection, rkey, r, cid, now))
            },
            None => posts,
        }
    } else if operation == DELETE@ {
        without_post(posts, record_uri(did, collection, rkey))
    } else {
        posts
    }
}

/// The follow table after a commit on the follow collection: a create writes the follow
/// unless its record is missing, a delete removes the follow, anything else changes
/// nothing.
pub open spec fn follows_after_commit(
    follows: Seq<FollowView>,
    did: Seq<char>,
    collection: Seq<char>,
    rkey: Seq<char>,
    operation: Seq<char>,
    record: Option<RecordView>,
    now: i64,
) -> Seq<FollowView> {
    if operation == CREATE@ {
        match record {
            Some(r) => with_follow(follows, follow_of_commit(did, collection, rkey, r, now)),
            None => follows,
        }
    } else if operation == DELETE@ {
        without_follow(follows, record_uri(did, collection, rkey))
    } else {
        follows
    }
}

/// The index after a commit of the repository `did`, received at `now`.
pub open spec fn index_after_commit(
    index: IndexView,
    did: Seq<char>,
    collection: Seq<char>,
    rkey: Seq<char>,
    operation: Seq<char>,
    record: Option<RecordView>,
    cid: Seq<char>,
    now: i64,
) -> IndexView {
    if collection == POST_COLLECTION@ {
        IndexView {
            posts: posts_after_commit(
                index.posts,
                did,
                collection,
                rkey,
                operation,
                record,
                cid,
                now,
            ),
            ..index
        }
    } else if collection == FOLLOW_COLLECTION@ {
        IndexView {
            follows: follows_after_commit(
                index.follows,
                did,
                collection,
                rkey,
                operation,
                record,
                now,
            ),
            ..index
        }
    } else {
        index
    }
}

/// Mathematical value of a [`Commit`].
pub ghost struct CommitView {
    pub collection: Seq<char>,
    pub rkey: Seq<char>,
    pub operation: Seq<char>,
    pub record: Option<RecordView>,
    pub cid: Seq<char>,
}

impl View for Commit {
    type V = CommitView;

    open spec fn view(&self) -> CommitView {
        CommitView {
            collection: self.collection@,
            rkey: self.rkey@,
            operation: self.operation@,
            record: match self.record {
                Some(r) => Some(r@),
                None => None,
            },
            cid: self.cid@,
        }
    }
}

/// The index after an event received at `now`.
pub open spec fn index_after_event(index: IndexView, event: JetstreamEvent, now: i64) -> IndexView {
    match event {
        JetstreamEvent::Commit { did, commit } => index_after_commit(
            index,
            did@,
            commit@.collection,
            commit@.rkey,
            commit@.operation,
            commit@.record,
            commit@.cid,
            now,
        ),
        _ => index,
    }
}

/// Builds the URI of a record.
pub fn make_record_uri(did: &str, collection: &str, rkey: &str) -> (uri: String)
    ensures
        uri@ == record_uri(did@, collection@, rkey@),
{
    String::from_str("at://").concat(did).concat("/").concat(collection).concat("/").concat(rkey)
}

/// The indexer with the index that it feeds.
pub struct JetstreamEventHandler {
    pub db: Database,
}

impl JetstreamEventHandler {
    /// An indexer that feeds `db`.
    pub fn new(db: Database) -> (handler: JetstreamEventHandler)
        ensures
            handler.db == db,
    {
        JetstreamEventHandler { db }
    }

    /// The name under which the indexer registers with the stream.
    pub fn handler_id(&self) -> (id: String)
        ensures
            id@ == "following-no-reposts-handler"@,
    {
        String::from_str("following-no-reposts-handler")
    }

    /// Applies an event that was received at `now`: a commit on the post or the follow
    /// collection changes the index as `index_after_commit` says, every other event
    /// leaves it as it was.
    pub fn handle_event(&mut self, event: &JetstreamEvent, now: i64)
        requires
            old(self).db.wf(),
        ensures
            final(self).db.wf(),
            final(self).db@ == index_after_event(old(self).db@, *event, now),
    {
        match event {
            JetstreamEvent::Commit { did, commit } => {
                let record: Option<&Record> = match &commit.record {
                    Some(r) => Some(r),
                    None => None,
                };
                if same_text(commit.collection.as_str(), POST_COLLECTION) {
                    self.handle_post_event(
                        did.as_str(),
                        commit.collection.as_str(),
                        commit.rkey.as_str(),
                        commit.operation.as_str(),
                        record,
                        commit.cid.as_str(),
                        now,
                    );
                } else if same_text(commit.collection.as_str(), FOLLOW_COLLECTION) {
                    self.handle_follow_event(
                        did.as_str(),
                        commit.collection.as_str(),
                        commit.rkey.as_str(),
                        commit.operation.as_str(),
                        record,
                        now,
                    );
                }
            },
            _ => {},
        }
    }

    /// Applies a commit on the post collection: a create writes the post unless the
    /// record is a repost, a delete removes it, an update is ignored.
    pub fn handle_post_event(
        &mut self,
        did: &str,
        collection: &str,
        rkey: &str,
        operation: &str,
        record: Option<&Record>,
        cid: &str,
        now: i64,
    )
        requires
            old(self).db.wf(),
        ensures
            final(self).db.wf(),
            final(self).db.posts() == posts_after_commit(
                old(self).db.posts(),
                did@,
                collection@,
                rkey@,
                operation@,
                record_value(record),
                cid@,
                now,
            ),
            final(self).db.follows() == old(self).db.follows(),
            final(self).db.active_users() == old(self).db.active_users(),
    {
        let uri = make_record_uri(did, collection, rkey);
        if same_text(operation, CREATE) {
            if let Some(record) = record {
                if record.subject.is_present() {
                    return ;
                }
                let created_at = instant_from_text(record.created_at.text_or_empty(), now);
                let post = Post {
                    uri,
                    cid: String::from_str(cid),
                    author_did: String::from_str(did),
                    text: String::from_str(record.text.text_or_empty()),
                    created_at,
                    indexed_at: now,
                };
                self.db.insert_post(&post);
            }
        } else if same_text(operation, DELETE) {
            self.db.delete_post(uri.as_str());
        }
    }

    /// Applies a commit on the follow collection: a create writes the follow, a delete
    /// removes it, an update is ignored.
    pub fn handle_follow_event(
        &mut self,
        did: &str,
        collection: &str,
        rkey: &str,
        operation: &str,
        record: Option<&Record>,
        now: i64,
    )
        requires
            old(self).db.wf(),
        ensures
            final(self).db.wf(),
            final(self).db.follows() == follows_after_commit(
                old(self).db.follows(),
                did@,
                collection@,
                rkey@,
                operation@,
                record_value(record),
                now,
            ),
            final(self).db.posts() == old(self).db.posts(),
            final(self).db.active_users() == old(self).db.active_users(),
    {
        let uri = make_record_uri(did, collection, rkey);
        if same_text(operation, CREATE) {
            if let Some(record) = record {
                let created_at = instant_from_text(record.created_at.text_or_empty(), now);
                let follow = Follow {
                    uri,
                    follower_did: String::from_str(did),
                    target_did: String::from_str(record.subject.text_or_empty()),
                    created_at,
                    indexed_at: now,
                };
                self.db.insert_follow(&follow);
            }
        } else if same_text(operation, DELETE) {
            self.db.delete_follow(uri.as_str());
        }
    }
}

} // verus!
