//! Backfill: what one fetched page of a requester's follows, or of an author's posts,
//! adds to the index, and where the next page is asked for.

use vstd::prelude::*;
use vstd::string::StringExecFns;
use crate::types::{Post, Follow, PostView, FollowView};
use crate::record::{Field, FieldView, Record, RecordView, is_repost, string_value, text_value};
use crate::database::Database;
use crate::model::{with_post, with_follow, lemma_with_post_rows};
use crate::instant::{instant_from_text, instant_or, rfc3339_micros};
use crate::jetstream_consumer::{record_uri, make_record_uri, FOLLOW_COLLECTION};

verus! {

/// The address of the public API that lists the accounts an actor follows.
pub const FOLLOWS_ENDPOINT: &'static str =
    "https://public.api.bsky.app/xrpc/app.bsky.graph.getFollows?actor=";

/// The address of the public API that lists the posts of an actor.
pub const AUTHOR_FEED_ENDPOINT: &'static str =
    "https://public.api.bsky.app/xrpc/app.bsky.feed.getAuthorFeed?actor=";

/// The page size asked of the public API.
pub const PAGE_SIZE_PARAMETER: &'static str = "&limit=100";

/// The parameter that carries the cursor of the page asked for.
pub const CURSOR_PARAMETER: &'static str = "&cursor=";

/// The number of posts fetched of each followed account.
pub const POSTS_PER_USER: usize = 10;

/// A page of the accounts that an actor follows: the `did` member of each entry, and the
/// cursor of the next page. `follows` is `None` where the answer lists nothing.
#[derive(Debug)]
pub struct FollowsPage {
    pub follows: Option<Vec<Field>>,
    pub cursor: Option<String>,
}

/// An entry of an author's feed: whether it carries a `reason`, the `uri` and `cid` of its
/// post, and the record of the post.
#[derive(Debug)]
pub struct FeedItem {
    pub has_reason: bool,
    pub uri: Field,
    pub cid: Field,
    pub record: Record,
}

/// Mathematical value of a [`FeedItem`].
pub ghost struct FeedItemView {
    pub has_reason: bool,
    pub uri: FieldView,
    pub cid: FieldView,
    pub record: RecordView,
}

impl View for FeedItem {
    type V = FeedItemView;

    open spec fn view(&self) -> FeedItemView {
        FeedItemView {
            has_reason: self.has_reason,
            uri: self.uri@,
            cid: self.cid@,
            record: self.record@,
        }
    }
}

/// A page of an author's feed, and the cursor of the next page. `feed` is `None` where
/// the answer lists nothing.
#[derive(Debug)]
pub struct AuthorFeedPage {
    pub feed: Option<Vec<FeedItem>>,
    pub cursor: Option<String>,
}

/// What a page of an author's feed leaves to do: how many more posts may be taken, and the
/// cursor of the page to ask for next, `None` where the backfill of the author is done.
#[derive(Debug)]
pub struct BackfillStep {
    pub room: usize,
    pub next: Option<String>,
}

/// The address of a page: the endpoint, the actor, the page size and, where one is given,
/// the cursor.
pub open spec fn page_url(endpoint: Seq<char>, actor: Seq<char>, cursor: Option<Seq<char>>) -> Seq<
    char,
> {
    let first = endpoint + actor + PAGE_SIZE_PARAMETER@;
    match cursor {
        Some(c) => first + CURSOR_PARAMETER@ + c,
        None => first,
    }
}

fn make_page_url(endpoint: &str, actor: &str, cursor: Option<&str>) -> (url: String)
    ensures
        url@ == page_url(endpoint@, actor@, text_value(cursor)),
{
    let first = String::from_str(endpoint).concat(actor).concat(PAGE_SIZE_PARAMETER);
    match cursor {
        Some(c) => first.concat(CURSOR_PARAMETER).concat(c),
        None => first,
    }
}

/// The address of the page of `actor`'s follows that follows `cursor`.
pub fn follows_url(actor: &str, cursor: Option<&str>) -> (url: String)
    ensures
        url@ == page_url(FOLLOWS_ENDPOINT@, actor@, text_value(cursor)),
{
    make_page_url(FOLLOWS_ENDPOINT, actor, cursor)
}

/// The address of the page of `actor`'s posts that follows `cursor`.
pub fn author_feed_url(actor: &str, cursor: Option<&str>) -> (url: String)
    ensures
        url@ == page_url(AUTHOR_FEED_ENDPOINT@, actor@, text_value(cursor)),
{
    make_page_url(AUTHOR_FEED_ENDPOINT, actor, cursor)
}

/// Draws a random record key with `uuid::Uuid::new_v4` and writes it out. Trusted, with
/// nothing promised of the key that comes back.
#[verifier::external_body]
fn fresh_record_key() -> String {
    uuid::Uuid::new_v4().to_string()
}

/// The `did` members of the entries of a page; none where the page lists nothing.
pub open spec fn entries_of(page: FollowsPage) -> Seq<FieldView> {
    match page.follows {
        Some(entries) => entries@.map_values(|f: Field| f@),
        None => Seq::empty(),
    }
}

/// The items of a page; none where the page lists nothing.
pub open spec fn items_of(page: AuthorFeedPage) -> Seq<FeedItemView> {
    match page.feed {
        Some(items) => items@.map_values(|i: FeedItem| i@),
        None => Seq::empty(),
    }
}

/// The cursor after a page of follows: the one that the page names, and none where the
/// page lists nothing.
pub open spec fn next_follows_cursor(page: FollowsPage) -> Option<Seq<char>> {
    match page.follows {
        Some(_) => string_value(page.cursor),
        None => None,
    }
}

/// The follow that backfill writes for a target: it is stored under a key of its own in
/// the follow collection of the requester, created and indexed at `now`.
pub open spec fn backfilled_follow(
    user: Seq<char>,
    target: Seq<char>,
    rkey: Seq<char>,
    now: i64,
) -> FollowView {
    FollowView {
        uri: record_uri(user, FOLLOW_COLLECTION@, rkey),
        follower_did: user,
        target_did: target,
        created_at: now,
        indexed_at: now,
    }
}

/// The follow table after the entries of a page were written under the record keys
/// `keys`, one key for each entry. An entry without a `did` text, or with an empty one, is
/// passed over.
pub open spec fn follows_after_entries(
    rows: Seq<FollowView>,
    user: Seq<char>,
    entries: Seq<FieldView>,
    keys: Seq<Seq<char>>,
    now: i64,
) -> Seq<FollowView>
    decreases entries.len(),
{
    if entries.len() == 0 || keys.len() != entries.len() {
        rows
    } else {
        let before = follows_after_entries(rows, user, entries.drop_last(), keys.drop_last(), now);
        let target = entries.last().text_or_empty();
        if target.len() == 0 {
            before
        } else {
            with_follow(before, backfilled_follow(user, target, keys.last(), now))
        }
    }
}

/// Writes the follow of `user_did` to `target_did` under the record key `rkey`.
pub fn insert_backfilled_follow(
    db: &mut Database,
    user_did: &str,
    target_did: &str,
    rkey: &str,
    now: i64,
)
    requires
        old(db).wf(),
    ensures
        final(db).wf(),
        final(db).follows() == with_follow(
            old(db).follows(),
            backfilled_follow(user_did@, target_did@, rkey@, now),
        ),
        final(db).posts() == old(db).posts(),
        final(db).active_users() == old(db).active_users(),
{
    let follow = Follow {
        uri: make_record_uri(user_did, FOLLOW_COLLECTION, rkey),
        follower_did: String::from_str(user_did),
        target_did: String::from_str(target_did),
        created_at: now,
        indexed_at: now,
    };
    db.insert_follow(&follow);
}

/// Writes the follows that one page of `user_did`'s follows lists, each under a fresh
/// record key, and returns the cursor of the page to ask for next; `None` ends the
/// backfill.
pub fn backfill_follows(db: &mut Database, user_did: &str, page: &FollowsPage, now: i64) -> (next:
    Option<String>)
    requires
        old(db).wf(),
    ensures
        final(db).wf(),
        final(db).posts() == old(db).posts(),
        final(db).active_users() == old(db).active_users(),
        string_value(next) == next_follows_cursor(*page),
        exists|keys: Seq<Seq<char>>| #[trigger]
            follows_after_entries(old(db).follows(), user_did@, entries_of(*page), keys, now)
                == final(db).follows() && keys.len() == entries_of(*page).len(),
{
    let entries = match &page.follows {
        Some(entries) => entries,
        None => {
            assert(follows_after_entries(
                db.follows(),
                user_did@,
                entries_of(*page),
                Seq::<Seq<char>>::empty(),
                now,
            ) == db.follows());
            return None;
        },
    };
    let ghost listed = entries_of(*page);
    let ghost start = db.follows();
    let ghost keys: Seq<Seq<char>> = Seq::empty();
    let mut i: usize = 0;
    assert(listed.take(0) =~= Seq::<FieldView>::empty());
    while i < entries.len()
        invariant
            i <= entries.len(),
            listed == entries@.map_values(|f: Field| f@),
            db.wf(),
            db.posts() == old(db).posts(),
            db.active_users() == old(db).active_users(),
            keys.len() == i,
            db.follows() == follows_after_entries(start, user_did@, listed.take(i as int), keys, now),
        decreases entries.len() - i,
    {
        let target = entries[i].text_or_empty();
        let ghost so_far = db.follows();
        let ghost key: Seq<char> = Seq::empty();
        if !target.is_empty() {
            let rkey = fresh_record_key();
            proof {
                key = rkey@;
            }
            insert_backfilled_follow(db, user_did, target, rkey.as_str(), now);
        }
        proof {
            assert(listed.take(i + 1).drop_last() =~= listed.take(i as int));
            assert(keys.push(key).drop_last() =~= keys);
            assert(listed.take(i + 1).last() == entries@[i as int]@);
            keys = keys.push(key);
        }
        i += 1;
    }
    assert(listed.take(i as int) =~= listed);
    match &page.cursor {
        Some(c) => Some(c.clone()),
        None => None,
    }
}

/// The item is taken: it carries no `reason`, its record is no repost, and its post has a
/// URI and a CID.
pub open spec fn is_taken(item: FeedItemView) -> bool {
    &&& !item.has_reason
    &&& !is_repost(item.record)
    &&& item.uri.text_or_empty().len() > 0
    &&& item.cid.text_or_empty().len() > 0
}

/// The post that backfill writes for an item of the feed of `author`.
pub open spec fn post_of_item(item: FeedItemView, author: Seq<char>, now: i64) -> PostView {
    PostView {
        uri: item.uri.text_or_empty(),
        cid: item.cid.text_or_empty(),
        author_did: author,
        text: item.record.text.text_or_empty(),
        created_at: instant_or(rfc3339_micros(item.record.created_at.text_or_empty()), now),
        indexed_at: now,
    }
}

/// The post table after the items of a page were gone through with room for `room` more
/// posts: each taken item is written while there is room.
pub open spec fn posts_after_items(
    rows: Seq<PostView>,
    author: Seq<char>,
    items: Seq<FeedItemView>,
    room: nat,
    now: i64,
) -> Seq<PostView>
    decreases items.len(),
{
    if items.len() == 0 || room == 0 {
        rows
    } else if is_taken(items.first()) {
        posts_after_items(
            with_post(rows, post_of_item(items.first(), author, now)),
            author,
            items.drop_first(),
            (room - 1) as nat,
            now,
        )
    } else {
        posts_after_items(rows, author, items.drop_first(), room, now)
    }
}

/// The room that is left after the items of a page were gone through.
pub open spec fn room_after_items(items: Seq<FeedItemView>, room: nat) -> nat
    decreases items.len(),
{
    if items.len() == 0 || room == 0 {
        room
    } else if is_taken(items.first()) {
        room_after_items(items.drop_first(), (room - 1) as nat)
    } else {
        room_after_items(items.drop_first(), room)
    }
}

/// The cursor after a page of an author's feed: the one that the page names, and none
/// where the page lists nothing or no room is left.
pub open spec fn next_feed_cursor(page: AuthorFeedPage, room_left: nat) -> Option<Seq<char>> {
    match page.feed {
        Some(_) => if room_left == 0 {
            None
        } else {
            string_value(page.cursor)
        },
        None => None,
    }
}

/// Writes the posts that one page of the feed of `target_did` lists, `room` at most,
/// leaving out reposts, and tells what is left to do.
pub fn backfill_posts(
    db: &mut Database,
    target_did: &str,
    page: &AuthorFeedPage,
    room: usize,
    now: i64,
) -> (step: BackfillStep)
    requires
        old(db).wf(),
    ensures
        final(db).wf(),
        final(db).follows() == old(db).follows(),
        final(db).active_users() == old(db).active_users(),
        final(db).posts() == posts_after_items(
            old(db).posts(),
            target_did@,
            items_of(*page),
            room as nat,
            now,
        ),
        step.room == room_after_items(items_of(*page), room as nat),
        string_value(step.next) == next_feed_cursor(*page, step.room as nat),
{
    let items = match &page.feed {
        Some(items) => items,
        None => {
            return BackfillStep { room, next: None };
        },
    };
    let ghost listed = items_of(*page);
    let ghost start = db.posts();
    let mut left: usize = room;
    let mut i: usize = 0;
    assert(listed.skip(0) =~= listed);
    while i < items.len() && left > 0
        invariant
            i <= items.len(),
            listed == items@.map_values(|i: FeedItem| i@),
            db.wf(),
            db.follows() == old(db).follows(),
            db.active_users() == old(db).active_users(),
            posts_after_items(db.posts(), target_did@, listed.skip(i as int), left as nat, now)
                == posts_after_items(start, target_did@, listed, room as nat, now),
            room_after_items(listed.skip(i as int), left as nat) == room_after_items(
                listed,
                room as nat,
            ),
        decreases items.len() - i,
    {
        let item = &items[i];
        proof {
            assert(listed.skip(i as int).first() == item@);
            assert(listed.skip(i as int).drop_first() =~= listed.skip(i + 1));
        }
        let uri = item.uri.text_or_empty();
        let cid = item.cid.text_or_empty();
        if !item.has_reason && !item.record.subject.is_present() && !uri.is_empty()
            && !cid.is_empty() {
            let post = Post {
                uri: String::from_str(uri),
                cid: String::from_str(cid),
                author_did: String::from_str(target_did),
                text: String::from_str(item.record.text.text_or_empty()),
                created_at: instant_from_text(item.record.created_at.text_or_empty(), now),
                indexed_at: now,
            };
            db.insert_post(&post);
            left -= 1;
        }
        i += 1;
    }
    assert(i == items.len() ==> listed.skip(i as int).len() == 0);
    let next = if left == 0 {
        None
    } else {
        match &page.cursor {
            Some(c) => Some(c.clone()),
            None => None,
        }
    };
    BackfillStep { room: left, next }
}

/// An item that carries a `reason`, or whose record is a repost, writes no post: the page
/// is gone through as if the item were not there.
pub proof fn repost_item_is_passed_over(
    rows: Seq<PostView>,
    author: Seq<char>,
    item: FeedItemView,
    rest: Seq<FeedItemView>,
    room: nat,
    now: i64,
)
    requires
        item.has_reason || is_repost(item.record),
    ensures
        posts_after_items(rows, author, seq![item] + rest, room, now) == posts_after_items(
            rows,
            author,
            rest,
            room,
            now,
        ),
{
    let items = seq![item] + rest;
    assert(items.first() == item);
    assert(items.drop_first() =~= rest);
    if room == 0 {
        assert(posts_after_items(rows, author, rest, room, now) == rows);
    }
}

/// After a page was gone through every row of the post table is a row from before, or
/// the post of an item of the page that carries no `reason` and is no repost.
pub proof fn backfill_writes_originals_only(
    rows: Seq<PostView>,
    author: Seq<char>,
    items: Seq<FeedItemView>,
    room: nat,
    now: i64,
)
    ensures
        forall|k: int|
            0 <= k < posts_after_items(rows, author, items, room, now).len() ==> rows.contains(
                #[trigger] posts_after_items(rows, author, items, room, now)[k],
            ) || exists|i: int|
                0 <= i < items.len() && is_taken(#[trigger] items[i]) && posts_after_items(
                    rows,
                    author,
                    items,
                    room,
                    now,
                )[k] == post_of_item(items[i], author, now),
    decreases items.len(),
{
    let after = posts_after_items(rows, author, items, room, now);
    if items.len() == 0 || room == 0 {
        assert forall|k: int| 0 <= k < after.len() implies rows.contains(#[trigger] after[k]) by {
            assert(after[k] == rows[k]);
        }
    } else {
        let rest = items.drop_first();
        if is_taken(items.first()) {
            let first = post_of_item(items.first(), author, now);
            let mid = with_post(rows, first);
            backfill_writes_originals_only(mid, author, rest, (room - 1) as nat, now);
            lemma_with_post_rows(rows, first);
            assert forall|k: int| 0 <= k < after.len() implies rows.contains(#[trigger] after[k])
                || exists|i: int|
                0 <= i < items.len() && is_taken(#[trigger] items[i]) && after[k] == post_of_item(
                    items[i],
                    author,
                    now,
                ) by {
                let inner = posts_after_items(mid, author, rest, (room - 1) as nat, now);
                assert(inner == after);
                assert(mid.contains(inner[k]) || exists|i: int|
                    0 <= i < rest.len() && is_taken(#[trigger] rest[i]) && inner[k] == post_of_item(
                        rest[i],
                        author,
                        now,
                    ));
                if mid.contains(after[k]) {
                    let m = choose|m: int| 0 <= m < mid.len() && mid[m] == after[k];
                    if !rows.contains(mid[m]) {
                        assert(is_taken(items[0]) && after[k] == post_of_item(items[0], author, now));
                    }
                } else {
                    let i = choose|i: int|
                        0 <= i < rest.len() && is_taken(#[trigger] rest[i]) && after[k]
                            == post_of_item(rest[i], author, now);
                    assert(rest[i] == items[i + 1]);
                    assert(is_taken(items[i + 1]) && after[k] == post_of_item(
                        items[i + 1],
                        author,
                        now,
                    ));
                }
            }
        } else {
            backfill_writes_originals_only(rows, author, rest, room, now);
            assert forall|k: int| 0 <= k < after.len() implies rows.contains(#[trigger] after[k])
                || exists|i: int|
                0 <= i < items.len() && is_taken(#[trigger] items[i]) && after[k] == post_of_item(
                    items[i],
                    author,
                    now,
                ) by {
                let inner = posts_after_items(rows, author, rest, room, now);
                assert(inner == after);
                assert(rows.contains(inner[k]) || exists|i: int|
                    0 <= i < rest.len() && is_taken(#[trigger] rest[i]) && inner[k] == post_of_item(
                        rest[i],
                        author,
                        now,
                    ));
                if !rows.contains(after[k]) {
                    let i = choose|i: int|
                        0 <= i < rest.len() && is_taken(#[trigger] rest[i]) && after[k]
                            == post_of_item(rest[i], author, now);
                    assert(rest[i] == items[i + 1]);
                    assert(is_taken(items[i + 1]) && after[k] == post_of_item(
                        items[i + 1],
                        author,
                        now,
                    ));
                }
            }
        }
    }
}

} // verus!
