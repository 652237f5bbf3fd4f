use following_no_reposts_feed::backfill::{
    author_feed_url, backfill_follows, backfill_posts, follows_url, insert_backfilled_follow,
    AuthorFeedPage, FeedItem, FollowsPage,
};
use following_no_reposts_feed::cleanup::{
    cleanup_inactive_user_follows, collect_follow_targets, expire_old_posts,
    verify_active_user_follows, verify_follows_for_user,
};
use following_no_reposts_feed::database::Database;
use following_no_reposts_feed::record::{Field, Record};
use following_no_reposts_feed::types::{Follow, Post};

const NOW: i64 = 1_704_070_000_000_000;
const DAY: i64 = 86_400_000_000;

fn text(s: &str) -> Field {
    Field::Text(s.to_string())
}

fn item(key: &str, reason: bool, subject: Field) -> FeedItem {
    FeedItem {
        has_reason: reason,
        uri: text(&format!("at://bob/app.bsky.feed.post/{}", key)),
        cid: text(&format!("cid-{}", key)),
        record: Record { subject, text: text(key), created_at: text("2024-01-01T00:00:00Z") },
    }
}

fn follow(follower: &str, target: &str, key: &str) -> Follow {
    Follow {
        uri: format!("at://{}/app.bsky.graph.follow/{}", follower, key),
        follower_did: follower.to_string(),
        target_did: target.to_string(),
        created_at: NOW,
        indexed_at: NOW,
    }
}

#[test]
fn page_addresses_are_exact() {
    assert_eq!(
        follows_url("did:plc:alice", None),
        "https://public.api.bsky.app/xrpc/app.bsky.graph.getFollows?actor=did:plc:alice&limit=100"
    );
    assert_eq!(
        follows_url("did:plc:alice", Some("abc")),
        "https://public.api.bsky.app/xrpc/app.bsky.graph.getFollows?actor=did:plc:alice&limit=100&cursor=abc"
    );
    assert_eq!(
        author_feed_url("did:plc:bob", None),
        "https://public.api.bsky.app/xrpc/app.bsky.feed.getAuthorFeed?actor=did:plc:bob&limit=100"
    );
    assert_eq!(
        author_feed_url("did:plc:bob", Some("9")),
        "https://public.api.bsky.app/xrpc/app.bsky.feed.getAuthorFeed?actor=did:plc:bob&limit=100&cursor=9"
    );
}

#[test]
fn follows_page_is_written_under_fresh_keys() {
    let mut db = Database::new();
    let page = FollowsPage {
        follows: Some(vec![text("bob"), Field::Absent, text(""), Field::Other, text("carol"), text("bob")]),
        cursor: Some("next".to_string()),
    };
    let next = backfill_follows(&mut db, "alice", &page, NOW);
    assert_eq!(next, Some("next".to_string()));
    assert_eq!(db.follow_count(), 3);
    assert_eq!(
        db.follow_targets("alice"),
        vec!["bob".to_string(), "carol".to_string(), "bob".to_string()]
    );
    assert!(db.is_following("alice", "bob"));
    assert!(db.is_following("alice", "carol"));
}

#[test]
fn follows_backfill_ends_without_cursor_or_list() {
    let mut db = Database::new();
    let last = FollowsPage { follows: Some(vec![text("bob")]), cursor: None };
    assert_eq!(backfill_follows(&mut db, "alice", &last, NOW), None);
    assert_eq!(db.follow_count(), 1);
    let none = FollowsPage { follows: None, cursor: Some("more".to_string()) };
    assert_eq!(backfill_follows(&mut db, "alice", &none, NOW), None);
    assert_eq!(db.follow_count(), 1);
}

#[test]
fn backfilled_follow_is_stored_in_the_follow_collection() {
    let mut db = Database::new();
    insert_backfilled_follow(&mut db, "alice", "bob", "k1", NOW);
    insert_backfilled_follow(&mut db, "alice", "carol", "k1", NOW);
    assert_eq!(db.follow_count(), 1);
    assert!(db.is_following("alice", "carol"));
    db.delete_follow("at://alice/app.bsky.graph.follow/k1");
    assert_eq!(db.follow_count(), 0);
}

#[test]
fn posts_page_leaves_out_reposts() {
    let mut db = Database::new();
    db.insert_follow(&follow("alice", "bob", "1"));
    let page = AuthorFeedPage {
        feed: Some(vec![
            item("a", false, Field::Absent),
            item("b", true, Field::Absent),
            item("c", false, text("at://x")),
            item("d", false, Field::Other),
            FeedItem { uri: Field::Absent, ..item("e", false, Field::Absent) },
            FeedItem { cid: text(""), ..item("f", false, Field::Absent) },
            item("g", false, Field::Absent),
        ]),
        cursor: Some("next".to_string()),
    };
    let step = backfill_posts(&mut db, "bob", &page, 10, NOW);
    assert_eq!(step.room, 8);
    assert_eq!(step.next, Some("next".to_string()));
    assert_eq!(db.post_count(), 2);
    let a = db.get_post("at://bob/app.bsky.feed.post/a").unwrap();
    assert_eq!(a.cid, "cid-a");
    assert_eq!(a.author_did, "bob");
    assert_eq!(a.text, "a");
    assert_eq!(a.created_at, 1_704_067_200_000_000);
    assert_eq!(a.indexed_at, NOW);
    assert!(db.get_post("at://bob/app.bsky.feed.post/g").is_some());
    assert!(db.get_post("at://bob/app.bsky.feed.post/b").is_none());
    assert!(db.get_post("at://bob/app.bsky.feed.post/c").is_none());
}

#[test]
fn posts_backfill_stops_when_the_room_is_used() {
    let mut db = Database::new();
    let page = AuthorFeedPage {
        feed: Some(vec![
            item("a", false, Field::Absent),
            item("b", false, Field::Absent),
            item("c", false, Field::Absent),
        ]),
        cursor: Some("next".to_string()),
    };
    let step = backfill_posts(&mut db, "bob", &page, 2, NOW);
    assert_eq!(step.room, 0);
    assert_eq!(step.next, None);
    assert_eq!(db.post_count(), 2);
    assert!(db.get_post("at://bob/app.bsky.feed.post/c").is_none());
    let step = backfill_posts(&mut db, "bob", &page, 0, NOW);
    assert_eq!((step.room, step.next), (0, None));
    assert_eq!(db.post_count(), 2);
    let empty = AuthorFeedPage { feed: None, cursor: Some("x".to_string()) };
    let step = backfill_posts(&mut db, "bob", &empty, 5, NOW);
    assert_eq!((step.room, step.next), (5, None));
    let last = AuthorFeedPage { feed: Some(vec![]), cursor: None };
    let step = backfill_posts(&mut db, "bob", &last, 5, NOW);
    assert_eq!((step.room, step.next), (5, None));
}

#[test]
fn targets_are_collected_page_by_page() {
    let mut current = vec!["zed".to_string()];
    let page = FollowsPage {
        follows: Some(vec![text("bob"), Field::Absent, text(""), Field::Other, text("carol")]),
        cursor: Some("2".to_string()),
    };
    assert_eq!(collect_follow_targets(&page, &mut current), Some("2".to_string()));
    assert_eq!(
        current,
        vec!["zed".to_string(), "bob".to_string(), "".to_string(), "carol".to_string()]
    );
    let none = FollowsPage { follows: None, cursor: Some("3".to_string()) };
    assert_eq!(collect_follow_targets(&none, &mut current), None);
    assert_eq!(current.len(), 4);
}

#[test]
fn verification_syncs_and_stamps() {
    let mut db = Database::new();
    db.record_feed_request("alice", NOW - DAY);
    db.insert_follow(&follow("alice", "bob", "1"));
    db.insert_follow(&follow("alice", "carol", "2"));
    assert_eq!(verify_active_user_follows(&db, NOW), vec!["alice".to_string()]);
    verify_follows_for_user(&mut db, "alice", vec!["carol".to_string(), "dave".to_string()], NOW);
    assert_eq!(db.follow_targets("alice"), vec!["carol".to_string()]);
    assert_eq!(db.get_active_user("alice").unwrap().last_follow_sync, Some(NOW));
    assert_eq!(db.get_active_user("alice").unwrap().last_feed_request, NOW - DAY);
}

#[test]
fn inactive_requesters_lose_their_follows() {
    let mut db = Database::new();
    db.record_feed_request("alice", NOW - DAY);
    db.record_feed_request("bob", NOW - 7 * DAY);
    db.insert_follow(&follow("alice", "x", "1"));
    db.insert_follow(&follow("bob", "x", "2"));
    db.insert_follow(&follow("carol", "x", "3"));
    assert_eq!(verify_active_user_follows(&db, NOW), vec!["alice".to_string()]);
    cleanup_inactive_user_follows(&mut db, NOW);
    assert!(db.has_follows("alice"));
    assert!(!db.has_follows("bob"));
    assert!(!db.has_follows("carol"));
    cleanup_inactive_user_follows(&mut db, NOW);
    assert_eq!(db.follow_count(), 1);
}

#[test]
fn posts_expire_after_two_days() {
    let mut db = Database::new();
    for (key, age) in [("old", 2 * DAY + 1), ("edge", 2 * DAY), ("new", 0)] {
        db.insert_post(&Post {
            uri: key.to_string(),
            cid: "c".to_string(),
            author_did: "bob".to_string(),
            text: "".to_string(),
            created_at: NOW - age,
            indexed_at: NOW - age,
        });
    }
    assert_eq!(db.stale_posts(48, NOW), vec!["old".to_string()]);
    assert_eq!(expire_old_posts(&mut db, NOW), vec!["old".to_string()]);
    assert!(db.stale_posts(48, NOW).is_empty());
    assert!(db.get_post("old").is_none());
    assert!(db.get_post("edge").is_some());
    assert!(db.get_post("new").is_some());
}
