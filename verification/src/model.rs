//! The index as mathematics: tables are sequences of row values, and every operation of
//! the index is a function on those sequences.

use vstd::prelude::*;
use crate::types::{PostView, FollowView, ActiveUserView};
use crate::ranking::is_ranked_selection;

verus! {

/// Microseconds in an hour.
pub const MICROS_PER_HOUR: i64 = 3_600_000_000;

/// Microseconds in a day.
pub const MICROS_PER_DAY: i64 = 86_400_000_000;

// ---------------------------------------------------------------------------------------
// Posts
// ---------------------------------------------------------------------------------------

/// Some row holds the post `uri`.
pub open spec fn has_post(rows: Seq<PostView>, uri: Seq<char>) -> bool {
    exists|i: int| 0 <= i < rows.len() && (#[trigger] rows[i]).uri == uri
}

/// The place of the row that holds the post `uri`, where there is one.
pub open spec fn post_slot(rows: Seq<PostView>, uri: Seq<char>) -> int {
    choose|i: int| 0 <= i < rows.len() && (#[trigger] rows[i]).uri == uri
}

/// No two rows hold the same post URI.
pub open spec fn distinct_posts(rows: Seq<PostView>) -> bool {
    forall|i: int, j: int|
        0 <= i < j < rows.len() ==> (#[trigger] rows[i]).uri != (#[trigger] rows[j]).uri
}

/// The table after `post` was written: it replaces the row of its URI in place, or joins
/// the table at the end.
pub open spec fn with_post(rows: Seq<PostView>, post: PostView) -> Seq<PostView> {
    if has_post(rows, post.uri) {
        rows.update(post_slot(rows, post.uri), post)
    } else {
        rows.push(post)
    }
}

/// The rows that a delete of `uri` leaves.
pub open spec fn other_post(uri: Seq<char>) -> spec_fn(PostView) -> bool {
    |r: PostView| r.uri != uri
}

/// The table after the post `uri` was deleted.
pub open spec fn without_post(rows: Seq<PostView>, uri: Seq<char>) -> Seq<PostView> {
    rows.filter(other_post(uri))
}

/// The rows that retention keeps: those indexed at `cutoff` or later.
pub open spec fn indexed_since(cutoff: int) -> spec_fn(PostView) -> bool {
    |r: PostView| r.indexed_at >= cutoff
}

/// The table after every post indexed before `cutoff` was expired.
pub open spec fn posts_since(rows: Seq<PostView>, cutoff: int) -> Seq<PostView> {
    rows.filter(indexed_since(cutoff))
}

/// The rows that retention expires: those indexed before `cutoff`.
pub open spec fn indexed_before(cutoff: int) -> spec_fn(PostView) -> bool {
    |r: PostView| r.indexed_at < cutoff
}

/// The URIs of the posts, in order.
pub open spec fn uris_of(rows: Seq<PostView>) -> Seq<Seq<char>> {
    rows.map_values(|p: PostView| p.uri)
}

/// The URIs of the posts that were indexed before `cutoff`, in table order.
pub open spec fn stale_uris(rows: Seq<PostView>, cutoff: int) -> Seq<Seq<char>> {
    uris_of(rows.filter(indexed_before(cutoff)))
}

/// The retention cutoff: `hours` hours before `now`.
pub open spec fn hours_before(now: i64, hours: i64) -> int {
    now - hours * MICROS_PER_HOUR
}

/// The activity cutoff: `days` days before `now`.
pub open spec fn days_before(now: i64, days: i64) -> int {
    now - days * MICROS_PER_DAY
}

// ---------------------------------------------------------------------------------------
// Follows
// ---------------------------------------------------------------------------------------

/// Some row holds the follow `uri`.
pub open spec fn has_follow(rows: Seq<FollowView>, uri: Seq<char>) -> bool {
    exists|i: int| 0 <= i < rows.len() && (#[trigger] rows[i]).uri == uri
}

/// The place of the row that holds the follow `uri`, where there is one.
pub open spec fn follow_slot(rows: Seq<FollowView>, uri: Seq<char>) -> int {
    choose|i: int| 0 <= i < rows.len() && (#[trigger] rows[i]).uri == uri
}

/// No two rows hold the same follow URI.
pub open spec fn distinct_follows(rows: Seq<FollowView>) -> bool {
    forall|i: int, j: int|
        0 <= i < j < rows.len() ==> (#[trigger] rows[i]).uri != (#[trigger] rows[j]).uri
}

/// The table after `follow` was written: it replaces the row of its URI in place, or joins
/// the table at the end.
pub open spec fn with_follow(rows: Seq<FollowView>, follow: FollowView) -> Seq<FollowView> {
    if has_follow(rows, follow.uri) {
        rows.update(follow_slot(rows, follow.uri), follow)
    } else {
        rows.push(follow)
    }
}

/// The rows that a delete of `uri` leaves.
pub open spec fn other_follow(uri: Seq<char>) -> spec_fn(FollowView) -> bool {
    |r: FollowView| r.uri != uri
}

/// The table after the follow `uri` was deleted.
pub open spec fn without_follow(rows: Seq<FollowView>, uri: Seq<char>) -> Seq<FollowView> {
    rows.filter(other_follow(uri))
}

/// Some follow leads from `follower` to `target`.
pub open spec fn follows_target(
    rows: Seq<FollowView>,
    follower: Seq<char>,
    target: Seq<char>,
) -> bool {
    exists|k: int|
        0 <= k < rows.len() && (#[trigger] rows[k]).follower_did == follower && rows[k].target_did
            == target
}

/// Some follow starts at `follower`.
pub open spec fn has_follower(rows: Seq<FollowView>, follower: Seq<char>) -> bool {
    exists|k: int| 0 <= k < rows.len() && (#[trigger] rows[k]).follower_did == follower
}

/// The rows that a reconciliation of `user` against `targets` keeps: the follows of others,
/// and those of `user` whose target is listed.
pub open spec fn still_followed(user: Seq<char>, targets: Seq<Seq<char>>) -> spec_fn(
    FollowView,
) -> bool {
    |r: FollowView| r.follower_did != user || targets.contains(r.target_did)
}

/// The table after the follows of `user` were reconciled against `targets`.
pub open spec fn synced_follows(
    rows: Seq<FollowView>,
    user: Seq<char>,
    targets: Seq<Seq<char>>,
) -> Seq<FollowView> {
    rows.filter(still_followed(user, targets))
}

/// The rows whose follower is listed in `keep`.
pub open spec fn follower_among(keep: Seq<Seq<char>>) -> spec_fn(FollowView) -> bool {
    |r: FollowView| keep.contains(r.follower_did)
}

/// The table after the follows of every follower outside `keep` were dropped.
pub open spec fn follows_of(rows: Seq<FollowView>, keep: Seq<Seq<char>>) -> Seq<FollowView> {
    rows.filter(follower_among(keep))
}

/// The rows whose follower is `follower`.
pub open spec fn follows_from(follower: Seq<char>) -> spec_fn(FollowView) -> bool {
    |r: FollowView| r.follower_did == follower
}

/// The targets of the rows, in order.
pub open spec fn target_names(rows: Seq<FollowView>) -> Seq<Seq<char>> {
    rows.map_values(|r: FollowView| r.target_did)
}

/// The targets of the follows of `follower`, in table order, one entry per follow.
pub open spec fn targets_of(rows: Seq<FollowView>, follower: Seq<char>) -> Seq<Seq<char>> {
    target_names(rows.filter(follows_from(follower)))
}

// ---------------------------------------------------------------------------------------
// Active users
// ---------------------------------------------------------------------------------------

/// Some row holds the requester `did`.
pub open spec fn has_user(rows: Seq<ActiveUserView>, did: Seq<char>) -> bool {
    exists|i: int| 0 <= i < rows.len() && (#[trigger] rows[i]).did == did
}

/// The place of the row that holds the requester `did`, where there is one.
pub open spec fn user_slot(rows: Seq<ActiveUserView>, did: Seq<char>) -> int {
    choose|i: int| 0 <= i < rows.len() && (#[trigger] rows[i]).did == did
}

/// No two rows hold the same requester.
pub open spec fn distinct_users(rows: Seq<ActiveUserView>) -> bool {
    forall|i: int, j: int|
        0 <= i < j < rows.len() ==> (#[trigger] rows[i]).did != (#[trigger] rows[j]).did
}

/// The table after a feed request of `did` at `now`: the request instant of its row is
/// refreshed, the rest of the row kept; a first request adds a row that was never synced.
pub open spec fn with_request(rows: Seq<ActiveUserView>, did: Seq<char>, now: i64) -> Seq<
    ActiveUserView,
> {
    if has_user(rows, did) {
        let i = user_slot(rows, did);
        rows.update(i, ActiveUserView { last_feed_request: now, ..rows[i] })
    } else {
        rows.push(ActiveUserView { did, last_feed_request: now, last_follow_sync: None })
    }
}

/// The table after the follow set of `did` was reconciled at `now`: its row is stamped; a
/// requester without a row gets none.
pub open spec fn with_sync(rows: Seq<ActiveUserView>, did: Seq<char>, now: i64) -> Seq<
    ActiveUserView,
> {
    if has_user(rows, did) {
        let i = user_slot(rows, did);
        rows.update(i, ActiveUserView { last_follow_sync: Some(now), ..rows[i] })
    } else {
        rows
    }
}

/// The requester `did` asked for a feed after `cutoff`.
pub open spec fn is_active(rows: Seq<ActiveUserView>, cutoff: int, did: Seq<char>) -> bool {
    exists|i: int|
        0 <= i < rows.len() && (#[trigger] rows[i]).did == did && rows[i].last_feed_request
            > cutoff
}

/// The rows whose follower asked for a feed after `cutoff`.
pub open spec fn follower_is_active(users: Seq<ActiveUserView>, cutoff: int) -> spec_fn(
    FollowView,
) -> bool {
    |r: FollowView| is_active(users, cutoff, r.follower_did)
}

/// The table after the follows of every requester that was not active after `cutoff`
/// were dropped.
pub open spec fn follows_of_active(
    rows: Seq<FollowView>,
    users: Seq<ActiveUserView>,
    cutoff: int,
) -> Seq<FollowView> {
    rows.filter(follower_is_active(users, cutoff))
}

/// The request instants of the rows, in table order.
pub open spec fn request_stamps(rows: Seq<ActiveUserView>) -> Seq<i64> {
    rows.map_values(|u: ActiveUserView| u.last_feed_request)
}

/// Which rows requested a feed after `cutoff`.
pub open spec fn active_flags(rows: Seq<ActiveUserView>, cutoff: int) -> Seq<bool> {
    rows.map_values(|u: ActiveUserView| u.last_feed_request > cutoff)
}

/// The requesters of the rows at the places `picked`, in that order.
pub open spec fn dids_at(rows: Seq<ActiveUserView>, picked: Seq<int>) -> Seq<Seq<char>> {
    picked.map_values(|i: int| rows[i].did)
}

/// `dids` lists every requester seen after `cutoff`, the latest request first; requesters
/// with the same instant stand in table order.
pub open spec fn is_active_listing(
    rows: Seq<ActiveUserView>,
    cutoff: int,
    dids: Seq<Seq<char>>,
) -> bool {
    exists|picked: Seq<int>|
        {
            &&& #[trigger] is_ranked_selection(
                request_stamps(rows),
                active_flags(rows, cutoff),
                rows.len() as int,
                picked,
            )
            &&& dids == dids_at(rows, picked)
        }
}

// ---------------------------------------------------------------------------------------
// The feed query
// ---------------------------------------------------------------------------------------

/// The creation instants of the posts, in table order.
pub open spec fn creation_stamps(posts: Seq<PostView>) -> Seq<i64> {
    posts.map_values(|p: PostView| p.created_at)
}

/// The post belongs to the feed of `follower` before the instant `before`: it was created
/// earlier, and `follower` follows its author.
pub open spec fn in_feed(
    post: PostView,
    follows: Seq<FollowView>,
    follower: Seq<char>,
    before: i64,
) -> bool {
    post.created_at < before && follows_target(follows, follower, post.author_did)
}

/// Which posts belong to the feed of `follower` before `before`.
pub open spec fn feed_flags(
    posts: Seq<PostView>,
    follows: Seq<FollowView>,
    follower: Seq<char>,
    before: i64,
) -> Seq<bool> {
    posts.map_values(|p: PostView| in_feed(p, follows, follower, before))
}

/// The number of rows that a page may hold for a requested `limit`.
pub open spec fn page_capacity(limit: i32) -> int {
    if limit <= 0 {
        0
    } else {
        limit as int
    }
}

/// The posts at the places `picked`, in that order.
pub open spec fn posts_at(posts: Seq<PostView>, picked: Seq<int>) -> Seq<PostView> {
    picked.map_values(|i: int| posts[i])
}

/// `page` is the feed page of `follower` before `before`: the first `capacity` posts of
/// followed authors created before that instant, newest first; posts created at the same
/// instant stand in table order.
pub open spec fn is_feed_page(
    posts: Seq<PostView>,
    follows: Seq<FollowView>,
    follower: Seq<char>,
    before: i64,
    capacity: int,
    page: Seq<PostView>,
) -> bool {
    exists|picked: Seq<int>|
        {
            &&& #[trigger] is_ranked_selection(
                creation_stamps(posts),
                feed_flags(posts, follows, follower, before),
                capacity,
                picked,
            )
            &&& page == posts_at(posts, picked)
        }
}

// ---------------------------------------------------------------------------------------
// Lemmas
// ---------------------------------------------------------------------------------------

/// Filtering one more element either appends it or leaves the result unchanged.
pub proof fn lemma_filter_next<T>(s: Seq<T>, keep: spec_fn(T) -> bool, i: int)
    requires
        0 <= i < s.len(),
    ensures
        s.take(i + 1).filter(keep) == if keep(s[i]) {
            s.take(i).filter(keep).push(s[i])
        } else {
            s.take(i).filter(keep)
        },
{
    reveal(Seq::filter);
    assert(s.take(i + 1).drop_last() =~= s.take(i));
}

/// A filter that keeps every element changes nothing.
pub proof fn lemma_filter_all<T>(s: Seq<T>, keep: spec_fn(T) -> bool)
    requires
        forall|i: int| 0 <= i < s.len() ==> keep(#[trigger] s[i]),
    ensures
        s.filter(keep) == s,
    decreases s.len(),
{
    reveal(Seq::filter);
    if s.len() > 0 {
        assert forall|i: int| 0 <= i < s.drop_last().len() implies keep(
            #[trigger] s.drop_last()[i],
        ) by {
            assert(s.drop_last()[i] == s[i]);
        }
        lemma_filter_all(s.drop_last(), keep);
        assert(s.drop_last().push(s.last()) =~= s);
    }
}

/// Two filters that agree on every element of a sequence keep the same elements.
pub proof fn lemma_filter_same<T>(s: Seq<T>, first: spec_fn(T) -> bool, second: spec_fn(T) -> bool)
    requires
        forall|i: int| 0 <= i < s.len() ==> first(#[trigger] s[i]) == second(s[i]),
    ensures
        s.filter(first) == s.filter(second),
    decreases s.len(),
{
    reveal(Seq::filter);
    if s.len() > 0 {
        assert forall|i: int| 0 <= i < s.drop_last().len() implies first(
            #[trigger] s.drop_last()[i],
        ) == second(s.drop_last()[i]) by {
            assert(s.drop_last()[i] == s[i]);
        }
        lemma_filter_same(s.drop_last(), first, second);
    }
}

/// In a table of distinct URIs the row of a URI stands at one place only.
pub proof fn lemma_post_slot(rows: Seq<PostView>, i: int)
    requires
        distinct_posts(rows),
        0 <= i < rows.len(),
    ensures
        has_post(rows, rows[i].uri),
        post_slot(rows, rows[i].uri) == i,
{
    let j = post_slot(rows, rows[i].uri);
    assert(0 <= j < rows.len() && rows[j].uri == rows[i].uri);
}

/// In a table of distinct URIs the row of a URI stands at one place only.
pub proof fn lemma_follow_slot(rows: Seq<FollowView>, i: int)
    requires
        distinct_follows(rows),
        0 <= i < rows.len(),
    ensures
        has_follow(rows, rows[i].uri),
        follow_slot(rows, rows[i].uri) == i,
{
    let j = follow_slot(rows, rows[i].uri);
    assert(0 <= j < rows.len() && rows[j].uri == rows[i].uri);
}

/// In a table of distinct requesters the row of a requester stands at one place only.
pub proof fn lemma_user_slot(rows: Seq<ActiveUserView>, i: int)
    requires
        distinct_users(rows),
        0 <= i < rows.len(),
    ensures
        has_user(rows, rows[i].did),
        user_slot(rows, rows[i].did) == i,
{
    let j = user_slot(rows, rows[i].did);
    assert(0 <= j < rows.len() && rows[j].did == rows[i].did);
}

/// Writing a post keeps the URIs of the table distinct.
pub proof fn lemma_with_post_distinct(rows: Seq<PostView>, post: PostView)
    requires
        distinct_posts(rows),
    ensures
        distinct_posts(with_post(rows, post)),
{
    let after = with_post(rows, post);
    if has_post(rows, post.uri) {
        let s = post_slot(rows, post.uri);
        assert(rows[s].uri == post.uri);
        assert forall|i: int, j: int| 0 <= i < j < after.len() implies (#[trigger] after[i]).uri != (
        #[trigger] after[j]).uri by {
            assert(after[i].uri == rows[i].uri);
            assert(after[j].uri == rows[j].uri);
        }
    } else {
        assert forall|i: int, j: int| 0 <= i < j < after.len() implies (#[trigger] after[i]).uri != (
        #[trigger] after[j]).uri by {
            if j < rows.len() {
                assert(after[i] == rows[i] && after[j] == rows[j]);
            } else {
                assert(after[i] == rows[i]);
                assert(after[j] == post);
            }
        }
    }
}

/// Writing a follow keeps the URIs of the table distinct.
pub proof fn lemma_with_follow_distinct(rows: Seq<FollowView>, follow: FollowView)
    requires
        distinct_follows(rows),
    ensures
        distinct_follows(with_follow(rows, follow)),
{
    let after = with_follow(rows, follow);
    if has_follow(rows, follow.uri) {
        let s = follow_slot(rows, follow.uri);
        assert(rows[s].uri == follow.uri);
        assert forall|i: int, j: int| 0 <= i < j < after.len() implies (#[trigger] after[i]).uri != (
        #[trigger] after[j]).uri by {
            assert(after[i].uri == rows[i].uri);
            assert(after[j].uri == rows[j].uri);
        }
    } else {
        assert forall|i: int, j: int| 0 <= i < j < after.len() implies (#[trigger] after[i]).uri != (
        #[trigger] after[j]).uri by {
            if j < rows.len() {
                assert(after[i] == rows[i] && after[j] == rows[j]);
            } else {
                assert(after[i] == rows[i]);
                assert(after[j] == follow);
            }
        }
    }
}

/// After a write every row is a row from before or the post that was written.
pub proof fn lemma_with_post_rows(rows: Seq<PostView>, post: PostView)
    ensures
        forall|k: int|
            0 <= k < with_post(rows, post).len() ==> rows.contains(
                #[trigger] with_post(rows, post)[k],
            ) || with_post(rows, post)[k] == post,
{
    let after = with_post(rows, post);
    assert forall|k: int| 0 <= k < after.len() implies rows.contains(#[trigger] after[k])
        || after[k] == post by {
        if after[k] != post {
            assert(k < rows.len());
            assert(after[k] == rows[k]);
        }
    }
}

/// A filtered table keeps its rows in order: each kept row comes from a place of the
/// table, and later kept rows come from later places.
pub proof fn lemma_filter_places<T>(s: Seq<T>, keep: spec_fn(T) -> bool) -> (src: Seq<int>)
    ensures
        src.len() == s.filter(keep).len(),
        forall|k: int|
            0 <= k < src.len() ==> 0 <= #[trigger] src[k] < s.len() && s.filter(keep)[k]
                == s[src[k]],
        forall|k: int, l: int| 0 <= k < l < src.len() ==> #[trigger] src[k] < #[trigger] src[l],
    decreases s.len(),
{
    reveal(Seq::filter);
    if s.len() == 0 {
        Seq::empty()
    } else {
        let inner = lemma_filter_places(s.drop_last(), keep);
        if keep(s.last()) {
            let src = inner.push(s.len() - 1);
            assert forall|k: int| 0 <= k < src.len() implies 0 <= #[trigger] src[k] < s.len()
                && s.filter(keep)[k] == s[src[k]] by {
                if k < inner.len() {
                    assert(src[k] == inner[k]);
                    assert(s.drop_last()[inner[k]] == s[inner[k]]);
                }
            }
            assert forall|k: int, l: int| 0 <= k < l < src.len() implies #[trigger] src[k]
                < #[trigger] src[l] by {
                assert(src[k] == inner[k]);
                if l < inner.len() {
                    assert(src[l] == inner[l]);
                }
            }
            src
        } else {
            assert forall|k: int| 0 <= k < inner.len() implies 0 <= #[trigger] inner[k] < s.len()
                && s.filter(keep)[k] == s[inner[k]] by {
                assert(s.drop_last()[inner[k]] == s[inner[k]]);
            }
            inner
        }
    }
}

/// Filtering a table of distinct post URIs leaves the URIs distinct.
pub proof fn lemma_filter_posts_distinct(rows: Seq<PostView>, keep: spec_fn(PostView) -> bool)
    requires
        distinct_posts(rows),
    ensures
        distinct_posts(rows.filter(keep)),
{
    let src = lemma_filter_places(rows, keep);
    let kept = rows.filter(keep);
    assert forall|i: int, j: int| 0 <= i < j < kept.len() implies (#[trigger] kept[i]).uri != (
    #[trigger] kept[j]).uri by {
        assert(src[i] < src[j]);
        assert(kept[i] == rows[src[i]] && kept[j] == rows[src[j]]);
    }
}

/// Filtering a table of distinct follow URIs leaves the URIs distinct.
pub proof fn lemma_filter_follows_distinct(
    rows: Seq<FollowView>,
    keep: spec_fn(FollowView) -> bool,
)
    requires
        distinct_follows(rows),
    ensures
        distinct_follows(rows.filter(keep)),
{
    let src = lemma_filter_places(rows, keep);
    let kept = rows.filter(keep);
    assert forall|i: int, j: int| 0 <= i < j < kept.len() implies (#[trigger] kept[i]).uri != (
    #[trigger] kept[j]).uri by {
        assert(src[i] < src[j]);
        assert(kept[i] == rows[src[i]] && kept[j] == rows[src[j]]);
    }
}

} // verus!
