use following_no_reposts_feed::database::Database;
use following_no_reposts_feed::feed_algorithm::FollowingNoRepostsFeed;
use following_no_reposts_feed::instant::{
    current_instant, instant_from_text, instant_to_text, seconds_of,
};
use following_no_reposts_feed::types::{Follow, Post};

const T1: i64 = 1_704_067_200_000_000;
const T2: i64 = 1_704_067_260_000_000;
const T3: i64 = 1_704_067_320_000_000;
const NOW: i64 = 1_704_070_000_000_000;

fn follow(follower: &str, target: &str, key: &str) -> Follow {
    Follow {
        uri: format!("at://{}/app.bsky.graph.follow/{}", follower, key),
        follower_did: follower.to_string(),
        target_did: target.to_string(),
        created_at: T1,
        indexed_at: T1,
    }
}

fn post(author: &str, key: &str, text: &str, created_at: i64) -> Post {
    Post {
        uri: format!("at://{}/app.bsky.feed.post/{}", author, key),
        cid: format!("cid-{}", key),
        author_did: author.to_string(),
        text: text.to_string(),
        created_at,
        indexed_at: created_at,
    }
}

fn uris(page: &[Post]) -> Vec<String> {
    page.iter().map(|p| p.uri.clone()).collect()
}

#[test]
fn test_feed_generation() {
    let mut db = Database::new();
    let follower_did = "did:example:alice";
    let target_did = "did:example:bob";
    let now = current_instant();

    let follow = Follow {
        uri: format!("at://{}/app.bsky.graph.follow/test", follower_did),
        follower_did: follower_did.to_string(),
        target_did: target_did.to_string(),
        created_at: now - 2,
        indexed_at: now - 2,
    };
    db.insert_follow(&follow);

    let post = Post {
        uri: format!("at://{}/app.bsky.feed.post/test", target_did),
        cid: "test-cid".to_string(),
        author_did: target_did.to_string(),
        text: "Hello world!".to_string(),
        created_at: now - 1,
        indexed_at: now - 1,
    };
    db.insert_post(&post);

    let feed_algorithm = FollowingNoRepostsFeed::new(&db);
    let response = feed_algorithm.generate_feed(Some(follower_did.to_string()), Some(10), None, now);

    assert_eq!(response.feed.len(), 1);
    assert_eq!(response.feed[0].post, post.uri);
}

#[test]
fn insert_post_is_an_upsert_by_uri() {
    let mut db = Database::new();
    let mut p = post("did:example:bob", "1", "first", T1);
    for _ in 0..5 {
        db.insert_post(&p);
    }
    assert_eq!(db.post_count(), 1);
    p.text = "second".to_string();
    p.indexed_at = T2;
    db.insert_post(&p);
    assert_eq!(db.post_count(), 1);
    let stored = db.get_post(&p.uri).unwrap();
    assert_eq!(stored.text, "second");
    assert_eq!(stored.indexed_at, T2);
    assert_eq!(stored.cid, "cid-1");
}

#[test]
fn upsert_keeps_the_place_of_the_row() {
    let mut db = Database::new();
    db.insert_follow(&follow("did:example:alice", "did:example:bob", "f1"));
    db.insert_post(&post("did:example:bob", "1", "a", T1));
    db.insert_post(&post("did:example:bob", "2", "b", T1));
    db.insert_post(&post("did:example:bob", "1", "a again", T1));
    let page = db.posts_before("did:example:alice", 10, NOW);
    assert_eq!(
        uris(&page),
        vec![
            "at://did:example:bob/app.bsky.feed.post/1".to_string(),
            "at://did:example:bob/app.bsky.feed.post/2".to_string(),
        ]
    );
    assert_eq!(page[0].text, "a again");
}

#[test]
fn insert_follow_is_an_upsert_by_uri() {
    let mut db = Database::new();
    db.insert_follow(&follow("did:example:alice", "did:example:bob", "f1"));
    db.insert_follow(&follow("did:example:alice", "did:example:carol", "f1"));
    assert_eq!(db.follow_count(), 1);
    assert!(!db.is_following("did:example:alice", "did:example:bob"));
    assert!(db.is_following("did:example:alice", "did:example:carol"));
    db.insert_follow(&follow("did:example:alice", "did:example:carol", "f2"));
    assert_eq!(db.follow_count(), 2);
}

#[test]
fn delete_of_missing_rows_changes_nothing() {
    let mut db = Database::new();
    db.insert_follow(&follow("did:example:alice", "did:example:bob", "f1"));
    db.insert_post(&post("did:example:bob", "1", "hi", T1));
    db.delete_post("at://did:example:bob/app.bsky.feed.post/none");
    db.delete_follow("at://did:example:alice/app.bsky.graph.follow/none");
    assert_eq!(db.post_count(), 1);
    assert_eq!(db.follow_count(), 1);
    db.delete_post("at://did:example:bob/app.bsky.feed.post/1");
    db.delete_post("at://did:example:bob/app.bsky.feed.post/1");
    assert_eq!(db.post_count(), 0);
    db.delete_follow("at://did:example:alice/app.bsky.graph.follow/f1");
    assert_eq!(db.follow_count(), 0);
    assert!(!db.has_follows("did:example:alice"));
}

#[test]
fn feed_holds_only_posts_of_followed_authors() {
    let mut db = Database::new();
    db.insert_follow(&follow("did:example:alice", "did:example:bob", "f1"));
    db.insert_follow(&follow("did:example:dave", "did:example:carol", "f2"));
    db.insert_post(&post("did:example:bob", "1", "from bob", T1));
    db.insert_post(&post("did:example:carol", "1", "from carol", T2));
    db.insert_post(&post("did:example:alice", "1", "own", T3));
    let page = db.posts_before("did:example:alice", 50, NOW);
    assert_eq!(uris(&page), vec!["at://did:example:bob/app.bsky.feed.post/1".to_string()]);
    let page = db.posts_before("did:example:dave", 50, NOW);
    assert_eq!(uris(&page), vec!["at://did:example:carol/app.bsky.feed.post/1".to_string()]);
    assert!(db.posts_before("did:example:erin", 50, NOW).is_empty());
}

#[test]
fn duplicate_follow_edges_do_not_duplicate_posts() {
    let mut db = Database::new();
    db.insert_follow(&follow("did:example:alice", "did:example:bob", "f1"));
    db.insert_follow(&follow("did:example:alice", "did:example:bob", "f2"));
    db.insert_post(&post("did:example:bob", "1", "hi", T1));
    assert_eq!(db.posts_before("did:example:alice", 50, NOW).len(), 1);
}

#[test]
fn pagination_walks_from_newest_to_oldest() {
    let mut db = Database::new();
    db.insert_follow(&follow("did:example:alice", "did:example:bob", "f1"));
    db.insert_post(&post("did:example:bob", "2", "two", T2));
    db.insert_post(&post("did:example:bob", "1", "one", T1));
    db.insert_post(&post("did:example:bob", "3", "three", T3));

    let first = db.posts_before("did:example:alice", 2, NOW);
    assert_eq!(first.iter().map(|p| p.created_at).collect::<Vec<i64>>(), vec![T3, T2]);
    let second = db.posts_before("did:example:alice", 2, first[1].created_at);
    assert_eq!(second.iter().map(|p| p.created_at).collect::<Vec<i64>>(), vec![T1]);
    let third = db.posts_before("did:example:alice", 2, second[0].created_at);
    assert!(third.is_empty());
}

#[test]
fn posts_of_one_instant_leave_in_table_order() {
    let mut db = Database::new();
    db.insert_follow(&follow("did:example:alice", "did:example:bob", "f1"));
    db.insert_post(&post("did:example:bob", "b", "", T1));
    db.insert_post(&post("did:example:bob", "a", "", T1));
    db.insert_post(&post("did:example:bob", "c", "", T2));
    let page = db.posts_before("did:example:alice", 10, NOW);
    assert_eq!(
        uris(&page),
        vec![
            "at://did:example:bob/app.bsky.feed.post/c".to_string(),
            "at://did:example:bob/app.bsky.feed.post/b".to_string(),
            "at://did:example:bob/app.bsky.feed.post/a".to_string(),
        ]
    );
}

#[test]
fn cursor_instant_is_exclusive() {
    let mut db = Database::new();
    db.insert_follow(&follow("did:example:alice", "did:example:bob", "f1"));
    db.insert_post(&post("did:example:bob", "1", "", T1));
    assert!(db.posts_before("did:example:alice", 10, T1).is_empty());
    assert_eq!(db.posts_before("did:example:alice", 10, T1 + 1).len(), 1);
}

#[test]
fn limit_below_one_gives_an_empty_page() {
    let mut db = Database::new();
    db.insert_follow(&follow("did:example:alice", "did:example:bob", "f1"));
    db.insert_post(&post("did:example:bob", "1", "", T1));
    assert!(db.posts_before("did:example:alice", 0, NOW).is_empty());
    assert!(db.posts_before("did:example:alice", -3, NOW).is_empty());
    assert_eq!(db.posts_before("did:example:alice", 1, NOW).len(), 1);
}

#[test]
fn cursor_text_is_read_as_rfc3339() {
    let mut db = Database::new();
    db.insert_follow(&follow("did:example:alice", "did:example:bob", "f1"));
    db.insert_post(&post("did:example:bob", "1", "", T1));
    db.insert_post(&post("did:example:bob", "2", "", T2));
    let page = db.get_following_posts("did:example:alice", 10, Some("2024-01-01T00:01:00Z"), NOW);
    assert_eq!(uris(&page), vec!["at://did:example:bob/app.bsky.feed.post/1".to_string()]);
    let page = db.get_following_posts("did:example:alice", 10, Some("not a date"), NOW);
    assert_eq!(page.len(), 2);
    let page = db.get_following_posts("did:example:alice", 10, None, T2);
    assert_eq!(page.len(), 1);
}

#[test]
fn sync_prunes_stale_follows() {
    let mut db = Database::new();
    db.insert_follow(&follow("alice", "bob", "f1"));
    db.insert_follow(&follow("alice", "carol", "f2"));
    db.insert_follow(&follow("dave", "carol", "f3"));
    db.insert_post(&post("bob", "1", "", T1));
    db.insert_post(&post("carol", "1", "", T2));
    db.sync_follows_for_user("alice", vec!["bob".to_string()]);
    assert!(db.is_following("alice", "bob"));
    assert!(!db.is_following("alice", "carol"));
    assert!(db.is_following("dave", "carol"));
    let page = db.posts_before("alice", 50, NOW);
    assert!(page.iter().all(|p| p.author_did != "carol"));
    assert_eq!(page.len(), 1);
    db.sync_follows_for_user("alice", vec![]);
    assert!(!db.has_follows("alice"));
    assert_eq!(db.follow_targets("dave"), vec!["carol".to_string()]);
}

#[test]
fn old_posts_expire_by_indexing_instant() {
    let mut db = Database::new();
    let hour: i64 = 3_600_000_000;
    let mut old = post("bob", "old", "", T1);
    old.indexed_at = NOW - 48 * hour - 1;
    let mut edge = post("bob", "edge", "", T1);
    edge.indexed_at = NOW - 48 * hour;
    let mut fresh = post("bob", "fresh", "", T1);
    fresh.indexed_at = NOW;
    db.insert_post(&old);
    db.insert_post(&edge);
    db.insert_post(&fresh);
    db.cleanup_old_posts(48, NOW);
    assert!(db.get_post(&old.uri).is_none());
    assert!(db.get_post(&edge.uri).is_some());
    assert!(db.get_post(&fresh.uri).is_some());
    db.cleanup_old_posts(i64::MAX, i64::MIN);
    assert_eq!(db.post_count(), 2);
    db.cleanup_old_posts(i64::MIN, i64::MAX);
    assert_eq!(db.post_count(), 0);
}

#[test]
fn active_users_are_listed_latest_first() {
    let mut db = Database::new();
    let day: i64 = 86_400_000_000;
    db.record_feed_request("did:example:old", NOW - 7 * day);
    db.record_feed_request("did:example:mid", NOW - 7 * day + 1);
    db.record_feed_request("did:example:new", NOW - day);
    db.record_feed_request("did:example:mid2", NOW - 7 * day + 1);
    assert_eq!(
        db.get_active_users(7, NOW),
        vec![
            "did:example:new".to_string(),
            "did:example:mid".to_string(),
            "did:example:mid2".to_string(),
        ]
    );
    db.record_feed_request("did:example:old", NOW);
    assert_eq!(db.get_active_users(7, NOW)[0], "did:example:old");
    assert_eq!(db.get_active_users(7, NOW).len(), 4);
}

#[test]
fn feed_request_keeps_the_sync_stamp() {
    let mut db = Database::new();
    db.update_follow_sync("did:example:alice", T1);
    assert!(db.get_active_user("did:example:alice").is_none());
    db.record_feed_request("did:example:alice", T1);
    let user = db.get_active_user("did:example:alice").unwrap();
    assert_eq!(user.last_feed_request, T1);
    assert_eq!(user.last_follow_sync, None);
    db.update_follow_sync("did:example:alice", T2);
    db.record_feed_request("did:example:alice", T3);
    let user = db.get_active_user("did:example:alice").unwrap();
    assert_eq!(user.last_feed_request, T3);
    assert_eq!(user.last_follow_sync, Some(T2));
}

#[test]
fn retain_followers_drops_the_rest() {
    let mut db = Database::new();
    db.insert_follow(&follow("alice", "bob", "f1"));
    db.insert_follow(&follow("dave", "bob", "f2"));
    db.retain_followers(&vec!["dave".to_string()]);
    assert!(!db.has_follows("alice"));
    assert!(db.has_follows("dave"));
}

#[test]
fn instants_are_read_and_written_as_rfc3339() {
    assert_eq!(instant_from_text("1970-01-01T00:00:01Z", 7), 1_000_000);
    assert_eq!(instant_from_text("2024-01-01T00:00:00.250+00:00", 7), T1 + 250_000);
    assert_eq!(instant_from_text("2024-01-01T01:00:00+01:00", 7), T1);
    assert_eq!(instant_from_text("", 7), 7);
    assert_eq!(instant_from_text("yesterday", -7), -7);
    assert_eq!(instant_to_text(0), Some("1970-01-01T00:00:00+00:00".to_string()));
    assert_eq!(instant_to_text(T1), Some("2024-01-01T00:00:00+00:00".to_string()));
    assert_eq!(instant_to_text(T1 + 250_000), Some("2024-01-01T00:00:00.250+00:00".to_string()));
    assert_eq!(instant_to_text(i64::MAX), None);
}

#[test]
fn seconds_round_towards_the_past() {
    assert_eq!(seconds_of(0), 0);
    assert_eq!(seconds_of(999_999), 0);
    assert_eq!(seconds_of(1_000_000), 1);
    assert_eq!(seconds_of(T1 + 5), 1_704_067_200);
    assert_eq!(seconds_of(-1), -1);
    assert_eq!(seconds_of(-1_000_000), -1);
    assert_eq!(seconds_of(-1_000_001), -2);
    assert_eq!(seconds_of(i64::MIN), -9_223_372_036_855);
}

#[test]
fn the_clock_runs_after_2024() {
    assert!(current_instant() > T1);
}
