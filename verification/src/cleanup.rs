//! Retention and reconciliation: expiring old posts, pruning the follows of requesters
//! that went away, and bringing the follows of active requesters in line with the
//! network.

use vstd::prelude::*;
use crate::types::texts;
use crate::record::{Field, FieldView, string_value};
use crate::database::Database;
use crate::model::{
    posts_since, hours_before, days_before, stale_uris, synced_follows, with_sync, follows_of_active,
    follower_is_active, follower_among, is_active_listing, lemma_filter_same,
};
use crate::backfill::{FollowsPage, entries_of, next_follows_cursor};
use crate::laws::active_listing_names_the_active;

verus! {

/// The hours after which an indexed post expires.
pub const RETENTION_HOURS: i64 = 48;

/// The days for which a requester counts as active after a feed request.
pub const ACTIVE_DAYS: i64 = 7;

/// Expires the posts that were indexed more than `RETENTION_HOURS` hours before `now`,
/// and returns their URIs.
pub fn expire_old_posts(db: &mut Database, now: i64) -> (expired: Vec<String>)
    requires
        old(db).wf(),
    ensures
        final(db).wf(),
        final(db).posts() == posts_since(old(db).posts(), hours_before(now, RETENTION_HOURS)),
        texts(expired@) == stale_uris(old(db).posts(), hours_before(now, RETENTION_HOURS)),
        final(db).follows() == old(db).follows(),
        final(db).active_users() == old(db).active_users(),
{
    let expired = db.stale_posts(RETENTION_HOURS, now);
    db.cleanup_old_posts(RETENTION_HOURS, now);
    expired
}

/// The requesters whose follows are due for reconciliation at `now`: those that asked for
/// a feed within the last `ACTIVE_DAYS` days, the latest request first.
pub fn verify_active_user_follows(db: &Database, now: i64) -> (due: Vec<String>)
    ensures
        is_active_listing(db.active_users(), days_before(now, ACTIVE_DAYS), texts(due@)),
{
    db.get_active_users(ACTIVE_DAYS, now)
}

/// The targets that the entries of a page name: the `did` text of each entry that has one.
pub open spec fn named_targets(entries: Seq<FieldView>) -> Seq<Seq<char>>
    decreases entries.len(),
{
    if entries.len() == 0 {
        Seq::empty()
    } else {
        let before = named_targets(entries.drop_last());
        match entries.last() {
            FieldView::Text(did) => before.push(did),
            _ => before,
        }
    }
}

/// Adds the targets that one page of a requester's follows names to `current`, and
/// returns the cursor of the page to ask for next; `None` ends the listing.
pub fn collect_follow_targets(page: &FollowsPage, current: &mut Vec<String>) -> (next: Option<
    String,
>)
    ensures
        texts(final(current)@) == texts(old(current)@) + named_targets(entries_of(*page)),
        string_value(next) == next_follows_cursor(*page),
{
    let entries = match &page.follows {
        Some(entries) => entries,
        None => {
            assert(texts(current@) + Seq::<Seq<char>>::empty() =~= texts(current@));
            return None;
        },
    };
    let ghost listed = entries_of(*page);
    let ghost start = texts(current@);
    let mut i: usize = 0;
    assert(listed.take(0) =~= Seq::<FieldView>::empty());
    assert(start + Seq::<Seq<char>>::empty() =~= start);
    while i < entries.len()
        invariant
            i <= entries.len(),
            listed == entries@.map_values(|f: Field| f@),
            texts(current@) =~= start + named_targets(listed.take(i as int)),
        decreases entries.len() - i,
    {
        proof {
            assert(listed.take(i + 1).drop_last() =~= listed.take(i as int));
            assert(listed.take(i + 1).last() == entries@[i as int]@);
        }
        match &entries[i] {
            Field::Text(did) => {
                let ghost before = texts(current@);
                let target = did.clone();
                current.push(target);
                assert(texts(current@) =~= before.push(did@));
            },
            _ => {},
        }
        i += 1;
    }
    assert(listed.take(i as int) =~= listed);
    match &page.cursor {
        Some(c) => Some(c.clone()),
        None => None,
    }
}

/// Reconciles the follows of `user_did` against the targets that the network lists now,
/// and stamps the requester's record with `now`.
pub fn verify_follows_for_user(
    db: &mut Database,
    user_did: &str,
    current_follows: Vec<String>,
    now: i64,
)
    requires
        old(db).wf(),
    ensures
        final(db).wf(),
        final(db).follows() == synced_follows(
            old(db).follows(),
            user_did@,
            texts(current_follows@),
        ),
        final(db).active_users() == with_sync(old(db).active_users(), user_did@, now),
        final(db).posts() == old(db).posts(),
{
    db.sync_follows_for_user(user_did, current_follows);
    db.update_follow_sync(user_did, now);
}

/// Drops the follows of every requester that did not ask for a feed within the last
/// `ACTIVE_DAYS` days before `now`.
pub fn cleanup_inactive_user_follows(db: &mut Database, now: i64)
    requires
        old(db).wf(),
    ensures
        final(db).wf(),
        final(db).follows() == follows_of_active(
            old(db).follows(),
            old(db).active_users(),
            days_before(now, ACTIVE_DAYS),
        ),
        final(db).posts() == old(db).posts(),
        final(db).active_users() == old(db).active_users(),
{
    let active = db.get_active_users(ACTIVE_DAYS, now);
    proof {
        let rows = db.follows();
        let users = db.active_users();
        let cutoff = days_before(now, ACTIVE_DAYS);
        assert forall|i: int| 0 <= i < rows.len() implies (follower_among(texts(active@)))(
            #[trigger] rows[i],
        ) == (follower_is_active(users, cutoff))(rows[i]) by {
            active_listing_names_the_active(users, cutoff, texts(active@), rows[i].follower_did);
        }
        lemma_filter_same(rows, follower_among(texts(active@)), follower_is_active(users, cutoff));
    }
    db.retain_followers(&active);
}

} // verus!
