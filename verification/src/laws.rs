//! What holds of the index whatever it contains.

use vstd::prelude::*;
use crate::types::{PostView, FollowView, ActiveUserView};
use crate::record::{RecordView, is_repost};
use crate::model::{
    has_post, post_slot, distinct_posts, with_post, without_post, other_post, has_follow,
    follow_slot, distinct_follows, with_follow, without_follow, other_follow, follows_target,
    synced_follows, still_followed, is_feed_page, in_feed, creation_stamps, feed_flags,
    posts_at, is_active_listing, is_active, page_capacity, dids_at, request_stamps, active_flags, lemma_filter_all,
    lemma_post_slot, lemma_follow_slot, lemma_with_post_distinct, lemma_with_follow_distinct,
    lemma_with_post_rows,
};
use crate::ranking::{
    is_ranked_selection, ranks_before, after_all, lemma_roomy_selection_is_complete,
    lemma_selection_is_unique,
};
use crate::jetstream_consumer::{
    posts_after_commit, follows_after_commit, post_of_commit, follow_of_commit, record_uri,
    CREATE, DELETE,
};
use crate::database::{IndexView, cursor_instant};
use crate::feed_algorithm::{is_skeleton_of_page, effective_limit};
use crate::types::FeedSkeletonView;
use crate::instant::rfc3339_micros;

verus! {

/// Of two writes to one post URI the later one stands: the table is as if only it had
/// been made.
pub proof fn last_post_write_wins(rows: Seq<PostView>, first: PostView, second: PostView)
    requires
        distinct_posts(rows),
        first.uri == second.uri,
    ensures
        with_post(with_post(rows, first), second) == with_post(rows, second),
{
    let mid = with_post(rows, first);
    lemma_with_post_distinct(rows, first);
    if has_post(rows, first.uri) {
        let s = post_slot(rows, first.uri);
        assert(mid[s] == first);
        lemma_post_slot(mid, s);
        assert(mid.update(s, second) =~= rows.update(s, second));
    } else {
        let s = rows.len() as int;
        assert(mid[s] == first);
        lemma_post_slot(mid, s);
        assert(mid.update(s, second) =~= rows.push(second));
    }
}

/// Writing a post again changes nothing.
pub proof fn rewrite_of_post_is_idempotent(rows: Seq<PostView>, post: PostView)
    requires
        distinct_posts(rows),
    ensures
        with_post(with_post(rows, post), post) == with_post(rows, post),
{
    last_post_write_wins(rows, post, post);
}

/// After a post was written the table holds exactly one row of its URI, and that row is
/// the post as written.
pub proof fn written_post_is_stored_once(rows: Seq<PostView>, post: PostView)
    requires
        distinct_posts(rows),
    ensures
        has_post(with_post(rows, post), post.uri),
        with_post(rows, post)[post_slot(with_post(rows, post), post.uri)] == post,
        forall|j: int|
            0 <= j < with_post(rows, post).len() && (#[trigger] with_post(rows, post)[j]).uri
                == post.uri ==> j == post_slot(with_post(rows, post), post.uri),
{
    let after = with_post(rows, post);
    lemma_with_post_distinct(rows, post);
    let s = if has_post(rows, post.uri) {
        post_slot(rows, post.uri)
    } else {
        rows.len() as int
    };
    assert(after[s] == post);
    lemma_post_slot(after, s);
    assert forall|j: int| 0 <= j < after.len() && (#[trigger] after[j]).uri == post.uri implies j
        == s by {
        if j != s {
            if j < s {
                assert(after[j].uri != after[s].uri);
            } else {
                assert(after[s].uri != after[j].uri);
            }
        }
    }
}

/// The table after `post` was written `times` times in a row.
pub open spec fn written_times(rows: Seq<PostView>, post: PostView, times: nat) -> Seq<PostView>
    decreases times,
{
    if times == 0 {
        rows
    } else {
        with_post(written_times(rows, post, (times - 1) as nat), post)
    }
}

/// Writing a post any number of times, once at least, is writing it once.
pub proof fn repeated_write_is_one_write(rows: Seq<PostView>, post: PostView, times: nat)
    requires
        distinct_posts(rows),
        times >= 1,
    ensures
        written_times(rows, post, times) == with_post(rows, post),
    decreases times,
{
    if times > 1 {
        repeated_write_is_one_write(rows, post, (times - 1) as nat);
        rewrite_of_post_is_idempotent(rows, post);
    } else {
        assert(written_times(rows, post, 0) == rows);
    }
}

/// Of two writes to one follow URI the later one stands.
pub proof fn last_follow_write_wins(rows: Seq<FollowView>, first: FollowView, second: FollowView)
    requires
        distinct_follows(rows),
        first.uri == second.uri,
    ensures
        with_follow(with_follow(rows, first), second) == with_follow(rows, second),
{
    let mid = with_follow(rows, first);
    lemma_with_follow_distinct(rows, first);
    if has_follow(rows, first.uri) {
        let s = follow_slot(rows, first.uri);
        assert(mid[s] == first);
        lemma_follow_slot(mid, s);
        assert(mid.update(s, second) =~= rows.update(s, second));
    } else {
        let s = rows.len() as int;
        assert(mid[s] == first);
        lemma_follow_slot(mid, s);
        assert(mid.update(s, second) =~= rows.push(second));
    }
}

/// A create commit that is applied again, at whatever later instant, leaves the post table
/// as the last application alone would: one row of the URI, as last written.
pub proof fn replayed_post_commit_is_last_commit(
    posts: Seq<PostView>,
    did: Seq<char>,
    collection: Seq<char>,
    rkey: Seq<char>,
    record: Option<RecordView>,
    cid: Seq<char>,
    first_now: i64,
    second_now: i64,
)
    requires
        distinct_posts(posts),
    ensures
        posts_after_commit(
            posts_after_commit(posts, did, collection, rkey, CREATE@, record, cid, first_now),
            did,
            collection,
            rkey,
            CREATE@,
            record,
            cid,
            second_now,
        ) == posts_after_commit(posts, did, collection, rkey, CREATE@, record, cid, second_now),
{
    match record {
        Some(r) => {
            if !is_repost(r) {
                last_post_write_wins(
                    posts,
                    post_of_commit(did, collection, rkey, r, cid, first_now),
                    post_of_commit(
                        did,
                        collection,
                        rkey,
                        r,
                        cid,
                        second_now,
                    ),
                );
            }
        },
        None => {},
    }
}

/// A create commit on the follow collection that is applied again leaves the follow table
/// as the last application alone would.
pub proof fn replayed_follow_commit_is_last_commit(
    follows: Seq<FollowView>,
    did: Seq<char>,
    collection: Seq<char>,
    rkey: Seq<char>,
    record: Option<RecordView>,
    first_now: i64,
    second_now: i64,
)
    requires
        distinct_follows(follows),
    ensures
        follows_after_commit(
            follows_after_commit(follows, did, collection, rkey, CREATE@, record, first_now),
            did,
            collection,
            rkey,
            CREATE@,
            record,
            second_now,
        ) == follows_after_commit(follows, did, collection, rkey, CREATE@, record, second_now),
{
    match record {
        Some(r) => {
            last_follow_write_wins(
                follows,
                follow_of_commit(did, collection, rkey, r, first_now),
                follow_of_commit(did, collection, rkey, r, second_now),
            );
        },
        None => {},
    }
}

/// A delete that arrives before its create does no harm: the delete changes nothing, and
/// the create that follows writes the post as if the delete had not come.
pub proof fn delete_before_create_is_harmless(
    posts: Seq<PostView>,
    did: Seq<char>,
    collection: Seq<char>,
    rkey: Seq<char>,
    record: Option<RecordView>,
    cid: Seq<char>,
    delete_now: i64,
    create_now: i64,
)
    requires
        !has_post(posts, record_uri(did, collection, rkey)),
    ensures
        posts_after_commit(posts, did, collection, rkey, DELETE@, None, cid, delete_now) == posts,
        posts_after_commit(
            posts_after_commit(posts, did, collection, rkey, DELETE@, None, cid, delete_now),
            did,
            collection,
            rkey,
            CREATE@,
            record,
            cid,
            create_now,
        ) == posts_after_commit(posts, did, collection, rkey, CREATE@, record, cid, create_now),
{
    reveal_strlit("create");
    reveal_strlit("delete");
    assert(CREATE@[0] != DELETE@[0]);
    delete_of_missing_post_changes_nothing(posts, record_uri(did, collection, rkey));
}

/// A create commit whose record is a repost leaves the post table as it was.
pub proof fn repost_commit_is_dropped(
    posts: Seq<PostView>,
    did: Seq<char>,
    collection: Seq<char>,
    rkey: Seq<char>,
    record: RecordView,
    cid: Seq<char>,
    now: i64,
)
    requires
        is_repost(record),
    ensures
        posts_after_commit(posts, did, collection, rkey, CREATE@, Some(record), cid, now) == posts,
{
}

/// After a commit every row of the post table is a row from before, or the post of that
/// commit, which then is a create whose record is no repost.
pub proof fn commit_writes_originals_only(
    posts: Seq<PostView>,
    did: Seq<char>,
    collection: Seq<char>,
    rkey: Seq<char>,
    operation: Seq<char>,
    record: Option<RecordView>,
    cid: Seq<char>,
    now: i64,
)
    ensures
        forall|k: int|
            0 <= k < posts_after_commit(
                posts,
                did,
                collection,
                rkey,
                operation,
                record,
                cid,
                now,
            ).len() ==> posts.contains(
                #[trigger] posts_after_commit(
                    posts,
                    did,
                    collection,
                    rkey,
                    operation,
                    record,
                    cid,
                    now,
                )[k],
            ) || (operation == CREATE@ && record is Some && !is_repost(record->0)
                && posts_after_commit(posts, did, collection, rkey, operation, record, cid, now)[k]
                == post_of_commit(did, collection, rkey, record->0, cid, now)),
{
    let after = posts_after_commit(posts, did, collection, rkey, operation, record, cid, now);
    if operation == CREATE@ {
        if record is Some && !is_repost(record->0) {
            lemma_with_post_rows(posts, post_of_commit(did, collection, rkey, record->0, cid, now));
        } else {
            assert forall|k: int| 0 <= k < after.len() implies posts.contains(#[trigger] after[k]) by {
                assert(after[k] == posts[k]);
            }
        }
    } else if operation == DELETE@ {
        assert forall|k: int| 0 <= k < after.len() implies posts.contains(#[trigger] after[k]) by {
            assert(after.contains(after[k]));
            posts.lemma_filter_contains_rev(other_post(record_uri(did, collection, rkey)), after[k]);
        }
    } else {
        assert forall|k: int| 0 <= k < after.len() implies posts.contains(#[trigger] after[k]) by {
            assert(after[k] == posts[k]);
        }
    }
}

/// Deleting a post that the table does not hold changes nothing.
pub proof fn delete_of_missing_post_changes_nothing(rows: Seq<PostView>, uri: Seq<char>)
    requires
        !has_post(rows, uri),
    ensures
        without_post(rows, uri) == rows,
{
    lemma_filter_all(rows, other_post(uri));
}

/// Deleting a follow that the table does not hold changes nothing.
pub proof fn delete_of_missing_follow_changes_nothing(rows: Seq<FollowView>, uri: Seq<char>)
    requires
        !has_follow(rows, uri),
    ensures
        without_follow(rows, uri) == rows,
{
    lemma_filter_all(rows, other_follow(uri));
}

/// A deleted post is gone, and every other post stays.
pub proof fn delete_removes_that_post_only(rows: Seq<PostView>, uri: Seq<char>)
    ensures
        !has_post(without_post(rows, uri), uri),
        forall|i: int|
            0 <= i < rows.len() && (#[trigger] rows[i]).uri != uri ==> without_post(
                rows,
                uri,
            ).contains(rows[i]),
{
    let after = without_post(rows, uri);
    assert forall|k: int| 0 <= k < after.len() implies (#[trigger] after[k]).uri != uri by {
        rows.lemma_filter_pred(other_post(uri), k);
    }
    assert forall|i: int| 0 <= i < rows.len() && (#[trigger] rows[i]).uri != uri implies after.contains(
        rows[i],
    ) by {
        rows.lemma_filter_contains(other_post(uri), i);
    }
}

/// After a reconciliation of `user` against `targets` no follow of `user` leads outside
/// `targets`, every follow that was there and is allowed is still there, and no follow was
/// added.
pub proof fn sync_keeps_exactly_the_listed_targets(
    rows: Seq<FollowView>,
    user: Seq<char>,
    targets: Seq<Seq<char>>,
)
    ensures
        forall|k: int|
            0 <= k < synced_follows(rows, user, targets).len() && (#[trigger] synced_follows(
                rows,
                user,
                targets,
            )[k]).follower_did == user ==> targets.contains(
                synced_follows(rows, user, targets)[k].target_did,
            ),
        forall|i: int|
            0 <= i < rows.len() && ((#[trigger] rows[i]).follower_did != user || targets.contains(
                rows[i].target_did,
            )) ==> synced_follows(rows, user, targets).contains(rows[i]),
        forall|k: int|
            0 <= k < synced_follows(rows, user, targets).len() ==> rows.contains(
                #[trigger] synced_follows(rows, user, targets)[k],
            ),
{
    let keep = still_followed(user, targets);
    let after = synced_follows(rows, user, targets);
    assert forall|k: int| 0 <= k < after.len() && (#[trigger] after[k]).follower_did
        == user implies targets.contains(after[k].target_did) by {
        rows.lemma_filter_pred(keep, k);
    }
    assert forall|i: int|
        0 <= i < rows.len() && ((#[trigger] rows[i]).follower_did != user || targets.contains(
            rows[i].target_did,
        )) implies after.contains(rows[i]) by {
        rows.lemma_filter_contains(keep, i);
    }
    assert forall|k: int| 0 <= k < after.len() implies rows.contains(#[trigger] after[k]) by {
        assert(after.contains(after[k]));
        rows.lemma_filter_contains_rev(keep, after[k]);
    }
}

/// After a reconciliation of `user` against `targets`, `user` follows only listed targets.
pub proof fn synced_user_follows_listed_targets_only(
    rows: Seq<FollowView>,
    user: Seq<char>,
    targets: Seq<Seq<char>>,
    target: Seq<char>,
)
    requires
        follows_target(synced_follows(rows, user, targets), user, target),
    ensures
        targets.contains(target),
{
    sync_keeps_exactly_the_listed_targets(rows, user, targets);
}

/// Every post of a feed page is a post of the index, created before the cursor instant,
/// whose author the requester follows.
pub proof fn feed_page_holds_followed_authors(
    posts: Seq<PostView>,
    follows: Seq<FollowView>,
    follower: Seq<char>,
    before: i64,
    capacity: int,
    page: Seq<PostView>,
)
    requires
        is_feed_page(posts, follows, follower, before, capacity, page),
    ensures
        page.len() <= capacity,
        forall|k: int|
            0 <= k < page.len() ==> posts.contains(#[trigger] page[k]) && page[k].created_at
                < before && follows_target(follows, follower, page[k].author_did),
{
    let picked = choose|picked: Seq<int>|
        {
            &&& #[trigger] is_ranked_selection(
                creation_stamps(posts),
                feed_flags(posts, follows, follower, before),
                capacity,
                picked,
            )
            &&& page == posts_at(posts, picked)
        };
    assert forall|k: int| 0 <= k < page.len() implies posts.contains(#[trigger] page[k])
        && page[k].created_at < before && follows_target(
        follows,
        follower,
        page[k].author_did,
    ) by {
        let i = picked[k];
        assert(feed_flags(posts, follows, follower, before)[i]);
        assert(page[k] == posts[i]);
        assert(in_feed(posts[i], follows, follower, before));
    }
}

/// A feed page runs from newer to older posts and holds no URI twice.
pub proof fn feed_page_is_ordered(
    posts: Seq<PostView>,
    follows: Seq<FollowView>,
    follower: Seq<char>,
    before: i64,
    capacity: int,
    page: Seq<PostView>,
)
    requires
        distinct_posts(posts),
        is_feed_page(posts, follows, follower, before, capacity, page),
    ensures
        forall|k: int, l: int|
            0 <= k < l < page.len() ==> (#[trigger] page[k]).created_at >= (
            #[trigger] page[l]).created_at && page[k].uri != page[l].uri,
{
    let picked = choose|picked: Seq<int>|
        {
            &&& #[trigger] is_ranked_selection(
                creation_stamps(posts),
                feed_flags(posts, follows, follower, before),
                capacity,
                picked,
            )
            &&& page == posts_at(posts, picked)
        };
    assert forall|k: int, l: int| 0 <= k < l < page.len() implies (#[trigger] page[k]).created_at
        >= (#[trigger] page[l]).created_at && page[k].uri != page[l].uri by {
        assert(ranks_before(creation_stamps(posts), picked[k], picked[l]));
        assert(page[k] == posts[picked[k]] && page[l] == posts[picked[l]]);
        assert(0 <= picked[k] < posts.len() && 0 <= picked[l] < posts.len());
        if picked[k] < picked[l] {
            assert(posts[picked[k]].uri != posts[picked[l]].uri);
        } else {
            assert(picked[k] != picked[l]);
            assert(posts[picked[l]].uri != posts[picked[k]].uri);
        }
    }
}

/// The page that follows the cursor of a page holds only posts that are strictly older
/// than every post of that page, so no URI comes twice over the two.
pub proof fn next_page_is_older(
    posts: Seq<PostView>,
    follows: Seq<FollowView>,
    follower: Seq<char>,
    before: i64,
    capacity: int,
    page: Seq<PostView>,
    next_capacity: int,
    next_page: Seq<PostView>,
)
    requires
        distinct_posts(posts),
        is_feed_page(posts, follows, follower, before, capacity, page),
        page.len() > 0,
        is_feed_page(posts, follows, follower, page.last().created_at, next_capacity, next_page),
    ensures
        forall|k: int, l: int|
            0 <= k < page.len() && 0 <= l < next_page.len() ==> (#[trigger] page[k]).created_at > (
            #[trigger] next_page[l]).created_at && page[k].uri != next_page[l].uri,
{
    feed_page_is_ordered(posts, follows, follower, before, capacity, page);
    feed_page_holds_followed_authors(
        posts,
        follows,
        follower,
        page.last().created_at,
        next_capacity,
        next_page,
    );
    assert forall|k: int, l: int| 0 <= k < page.len() && 0 <= l < next_page.len() implies (
    #[trigger] page[k]).created_at > (#[trigger] next_page[l]).created_at && page[k].uri
        != next_page[l].uri by {
        if k < page.len() - 1 {
            assert(page[k].created_at >= page[page.len() - 1].created_at);
        }
        assert(next_page[l].created_at < page.last().created_at);
    }
}

/// Following the cursor that a page was answered with: where the cursor text denotes the
/// instant it was written from, the page that is answered next holds only posts that are
/// strictly older than every post of the first page, and none of its URIs.
pub proof fn page_after_returned_cursor_is_older(
    index: IndexView,
    did: Seq<char>,
    limit: Option<i32>,
    cursor: Option<Seq<char>>,
    now: i64,
    response: FeedSkeletonView,
    page: Seq<PostView>,
    next_limit: Option<i32>,
    next_now: i64,
    next_response: FeedSkeletonView,
    next_page: Seq<PostView>,
)
    requires
        distinct_posts(index.posts),
        is_skeleton_of_page(index, did, limit, cursor, now, response, page),
        is_skeleton_of_page(index, did, next_limit, response.cursor, next_now, next_response, next_page),
    ensures
        page.len() > 0 && response.cursor is Some && rfc3339_micros(response.cursor->0) == Some(
            page.last().created_at,
        ) ==> forall|k: int, l: int|
            0 <= k < page.len() && 0 <= l < next_page.len() ==> (#[trigger] page[k]).created_at > (
            #[trigger] next_page[l]).created_at && page[k].uri != next_page[l].uri,
        page.len() == 0 ==> response.cursor is None,
{
    if page.len() > 0 && response.cursor is Some && rfc3339_micros(response.cursor->0) == Some(
        page.last().created_at,
    ) {
        next_page_is_older(
            index.posts,
            index.follows,
            did,
            cursor_instant(cursor, now),
            page_capacity(effective_limit(limit)),
            page,
            page_capacity(effective_limit(next_limit)),
            next_page,
        );
    }
}

/// The index, the requester, the cursor instant and the capacity determine the feed page.
pub proof fn feed_page_is_determined(
    posts: Seq<PostView>,
    follows: Seq<FollowView>,
    follower: Seq<char>,
    before: i64,
    capacity: int,
    page: Seq<PostView>,
    other: Seq<PostView>,
)
    requires
        is_feed_page(posts, follows, follower, before, capacity, page),
        is_feed_page(posts, follows, follower, before, capacity, other),
    ensures
        page == other,
{
    let stamps = creation_stamps(posts);
    let flags = feed_flags(posts, follows, follower, before);
    let first = choose|picked: Seq<int>|
        {
            &&& #[trigger] is_ranked_selection(stamps, flags, capacity, picked)
            &&& page == posts_at(posts, picked)
        };
    let second = choose|picked: Seq<int>|
        {
            &&& #[trigger] is_ranked_selection(stamps, flags, capacity, picked)
            &&& other == posts_at(posts, picked)
        };
    lemma_selection_is_unique(stamps, flags, capacity, first, second);
}

/// The records of the requesters and the cutoff determine the listing of the active.
pub proof fn active_listing_is_determined(
    rows: Seq<ActiveUserView>,
    cutoff: int,
    dids: Seq<Seq<char>>,
    other: Seq<Seq<char>>,
)
    requires
        is_active_listing(rows, cutoff, dids),
        is_active_listing(rows, cutoff, other),
    ensures
        dids == other,
{
    let stamps = request_stamps(rows);
    let flags = active_flags(rows, cutoff);
    let first = choose|picked: Seq<int>|
        {
            &&& #[trigger] is_ranked_selection(stamps, flags, rows.len() as int, picked)
            &&& dids == dids_at(rows, picked)
        };
    let second = choose|picked: Seq<int>|
        {
            &&& #[trigger] is_ranked_selection(stamps, flags, rows.len() as int, picked)
            &&& other == dids_at(rows, picked)
        };
    lemma_selection_is_unique(stamps, flags, rows.len() as int, first, second);
}

/// A post of the feed that a page leaves out is no newer than any post of the page, and
/// the page is full.
pub proof fn left_out_posts_are_not_newer(
    posts: Seq<PostView>,
    follows: Seq<FollowView>,
    follower: Seq<char>,
    before: i64,
    capacity: int,
    page: Seq<PostView>,
)
    requires
        is_feed_page(posts, follows, follower, before, capacity, page),
    ensures
        forall|i: int|
            0 <= i < posts.len() && in_feed(#[trigger] posts[i], follows, follower, before)
                && !page.contains(posts[i]) ==> page.len() == capacity && forall|k: int|
                0 <= k < page.len() ==> (#[trigger] page[k]).created_at >= posts[i].created_at,
{
    let stamps = creation_stamps(posts);
    let picked = choose|picked: Seq<int>|
        {
            &&& #[trigger] is_ranked_selection(
                stamps,
                feed_flags(posts, follows, follower, before),
                capacity,
                picked,
            )
            &&& page == posts_at(posts, picked)
        };
    assert forall|i: int|
        0 <= i < posts.len() && in_feed(#[trigger] posts[i], follows, follower, before)
            && !page.contains(posts[i]) implies page.len() == capacity && forall|k: int|
        0 <= k < page.len() ==> (#[trigger] page[k]).created_at >= posts[i].created_at by {
        assert(feed_flags(posts, follows, follower, before)[i]);
        if picked.contains(i) {
            let k = choose|k: int| 0 <= k < picked.len() && picked[k] == i;
            assert(page[k] == posts[i]);
        }
        assert(after_all(stamps, picked, i));
        assert forall|k: int| 0 <= k < page.len() implies (#[trigger] page[k]).created_at
            >= posts[i].created_at by {
            assert(ranks_before(stamps, picked[k], i));
            assert(page[k] == posts[picked[k]]);
        }
    }
}

/// A page that is not full holds every post of the feed before its cursor instant.
pub proof fn short_page_is_whole_feed(
    posts: Seq<PostView>,
    follows: Seq<FollowView>,
    follower: Seq<char>,
    before: i64,
    capacity: int,
    page: Seq<PostView>,
)
    requires
        is_feed_page(posts, follows, follower, before, capacity, page),
        page.len() < capacity,
    ensures
        forall|i: int|
            0 <= i < posts.len() && in_feed(#[trigger] posts[i], follows, follower, before)
                ==> page.contains(posts[i]),
{
    let picked = choose|picked: Seq<int>|
        {
            &&& #[trigger] is_ranked_selection(
                creation_stamps(posts),
                feed_flags(posts, follows, follower, before),
                capacity,
                picked,
            )
            &&& page == posts_at(posts, picked)
        };
    assert forall|i: int|
        0 <= i < posts.len() && in_feed(#[trigger] posts[i], follows, follower, before) implies page.contains(
        posts[i],
    ) by {
        assert(feed_flags(posts, follows, follower, before)[i]);
        assert(picked.contains(i));
        let k = choose|k: int| 0 <= k < picked.len() && picked[k] == i;
        assert(page[k] == posts[i]);
    }
}

/// The listing of active requesters names exactly the requesters whose last request came
/// after the cutoff.
pub proof fn active_listing_names_the_active(
    rows: Seq<ActiveUserView>,
    cutoff: int,
    dids: Seq<Seq<char>>,
    did: Seq<char>,
)
    requires
        is_active_listing(rows, cutoff, dids),
    ensures
        dids.contains(did) <==> is_active(rows, cutoff, did),
{
    let picked = choose|picked: Seq<int>|
        {
            &&& #[trigger] is_ranked_selection(
                request_stamps(rows),
                active_flags(rows, cutoff),
                rows.len() as int,
                picked,
            )
            &&& dids == dids_at(rows, picked)
        };
    lemma_roomy_selection_is_complete(
        request_stamps(rows),
        active_flags(rows, cutoff),
        rows.len() as int,
        picked,
    );
    if dids.contains(did) {
        let k = choose|k: int| 0 <= k < dids.len() && dids[k] == did;
        let i = picked[k];
        assert(active_flags(rows, cutoff)[i]);
        assert(rows[i].did == did && rows[i].last_feed_request > cutoff);
    }
    if exists|i: int|
        0 <= i < rows.len() && (#[trigger] rows[i]).did == did && rows[i].last_feed_request
            > cutoff {
        let i = choose|i: int|
            0 <= i < rows.len() && (#[trigger] rows[i]).did == did && rows[i].last_feed_request
                > cutoff;
        assert(active_flags(rows, cutoff)[i]);
        assert(picked.contains(i));
        let k = choose|k: int| 0 <= k < picked.len() && picked[k] == i;
        assert(dids[k] == did);
    }
}

} // verus!
