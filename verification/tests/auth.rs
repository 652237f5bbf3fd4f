use atrium_crypto::keypair::{Did, P256Keypair, Secp256k1Keypair};
use base64::engine::general_purpose::URL_SAFE_NO_PAD;
use base64::Engine;
use following_no_reposts_feed::auth::{
    check_claims, multikey_safe, read_claims, signature_holds, signing_input, signing_key,
    split_token, validate_jwt, verdict, AuthError,
};
use following_no_reposts_feed::database::Database;
use following_no_reposts_feed::service::{
    authentication_required, bearer_token, did_document, get_feed_skeleton, internal_error, root,
    service_did_for_host, Authorization, FeedReply,
};
use following_no_reposts_feed::types::{FeedSkeletonParams, Follow, Post};

const SERVICE: &str = "did:web:feed.example.com";
const NOW_SECONDS: i64 = 1_704_070_000;
const NOW: i64 = 1_704_070_000_000_000;

fn keypair() -> Secp256k1Keypair {
    Secp256k1Keypair::import(&[7u8; 32]).unwrap()
}

fn token_with_payload(payload: &str) -> String {
    let header = URL_SAFE_NO_PAD.encode("{\"alg\":\"ES256K\",\"typ\":\"JWT\"}");
    let body = URL_SAFE_NO_PAD.encode(payload);
    let signed = format!("{}.{}", header, body);
    let signature = keypair().sign(signed.as_bytes()).unwrap();
    format!("{}.{}", signed, URL_SAFE_NO_PAD.encode(signature))
}

fn token(iss: &str, aud: &str, exp: i64) -> String {
    token_with_payload(&format!("{{\"iss\":\"{}\",\"aud\":\"{}\",\"exp\":{}}}", iss, aud, exp))
}

fn issuer_key() -> String {
    keypair().did()["did:key:".len()..].to_string()
}

fn validate(token: &str) -> Result<(String, String, i64), AuthError> {
    validate_jwt(token, SERVICE, NOW_SECONDS, Some(&issuer_key())).map(|c| (c.iss, c.aud, c.exp))
}

fn status_of(token: Option<&str>) -> u16 {
    let mut db = Database::new();
    let params = FeedSkeletonParams { feed: "at://x/app.bsky.feed.generator/f".to_string(), limit: None, cursor: None };
    let header = token.map(|t| format!("Bearer {}", t));
    let authorization = match &header {
        Some(h) => Authorization::Header(h),
        None => Authorization::Missing,
    };
    get_feed_skeleton(&mut db, authorization, &params, SERVICE, NOW, Some(&issuer_key())).reply.status()
}

#[test]
fn token_splits_at_its_two_dots() {
    let parts = split_token("aa.bbb.c").unwrap();
    assert_eq!(parts.header, "aa");
    assert_eq!(parts.payload, "bbb");
    assert_eq!(parts.signature, "c");
    let parts = split_token("..").unwrap();
    assert_eq!(parts.header, "");
    assert_eq!(parts.payload, "");
    assert_eq!(parts.signature, "");
    let parts = split_token("h\u{e9}.p\u{1f600}.s").unwrap();
    assert_eq!(parts.header, "h\u{e9}");
    assert_eq!(parts.payload, "p\u{1f600}");
    assert_eq!(parts.signature, "s");
    assert!(split_token("").is_none());
    assert!(split_token("abc").is_none());
    assert!(split_token("a.b").is_none());
    assert!(split_token("a.b.c.d").is_none());
    assert!(split_token("a.b.c.d.e").is_none());
}

#[test]
fn valid_token_is_accepted() {
    let t = token("did:plc:alice", SERVICE, NOW_SECONDS + 60);
    assert_eq!(
        validate(&t),
        Ok(("did:plc:alice".to_string(), SERVICE.to_string(), NOW_SECONDS + 60))
    );
    assert_eq!(status_of(Some(&t)), 200);
}

#[test]
fn token_that_expires_now_is_still_accepted() {
    let t = token("did:plc:alice", SERVICE, NOW_SECONDS);
    assert!(validate(&t).is_ok());
    let t = token("did:plc:alice", SERVICE, NOW_SECONDS - 1);
    assert_eq!(validate(&t), Err(AuthError::Expired));
}

#[test]
fn wrong_audience_is_refused() {
    let t = token("did:plc:alice", "did:web:other.example.com", NOW_SECONDS + 60);
    assert_eq!(validate(&t), Err(AuthError::AudienceMismatch));
    assert_eq!(status_of(Some(&t)), 401);
}

#[test]
fn expired_token_is_refused() {
    let t = token("did:plc:alice", SERVICE, NOW_SECONDS - 3600);
    assert_eq!(validate(&t), Err(AuthError::Expired));
    assert_eq!(status_of(Some(&t)), 401);
}

#[test]
fn audience_is_checked_before_expiry() {
    let t = token("did:plc:alice", "did:web:other.example.com", NOW_SECONDS - 3600);
    assert_eq!(validate(&t), Err(AuthError::AudienceMismatch));
}

#[test]
fn token_of_two_parts_is_refused() {
    let t = token("did:plc:alice", SERVICE, NOW_SECONDS + 60);
    let cut = t.rfind('.').unwrap();
    assert_eq!(validate(&t[..cut]), Err(AuthError::Malformed));
    assert_eq!(status_of(Some(&t[..cut])), 401);
    assert!(signing_input(&t[..cut]).is_none());
}

#[test]
fn tampered_payload_is_refused() {
    let t = token("did:plc:alice", SERVICE, NOW_SECONDS + 60);
    let parts = split_token(&t).unwrap();
    let forged = URL_SAFE_NO_PAD.encode(format!(
        "{{\"iss\":\"did:plc:mallory\",\"aud\":\"{}\",\"exp\":{}}}",
        SERVICE,
        NOW_SECONDS + 60
    ));
    let tampered = format!("{}.{}.{}", parts.header, forged, parts.signature);
    assert_eq!(validate(&tampered), Err(AuthError::BadSignature));
    assert_eq!(status_of(Some(&tampered)), 401);
}

#[test]
fn missing_claims_are_refused() {
    for payload in [
        "{\"aud\":\"did:web:feed.example.com\",\"exp\":1999999999}",
        "{\"iss\":\"did:plc:alice\",\"exp\":1999999999}",
        "{\"iss\":\"did:plc:alice\",\"aud\":\"did:web:feed.example.com\"}",
        "{\"iss\":7,\"aud\":\"did:web:feed.example.com\",\"exp\":1999999999}",
        "{\"iss\":\"did:plc:alice\",\"aud\":\"did:web:feed.example.com\",\"exp\":\"1999999999\"}",
        "{\"iss\":\"did:plc:alice\",\"aud\":\"did:web:feed.example.com\",\"exp\":1.5}",
        "not json",
        "",
    ] {
        let t = token_with_payload(payload);
        assert_eq!(read_claims(&t, SERVICE, NOW_SECONDS).err(), Some(AuthError::InvalidClaims));
    }
    assert_eq!(read_claims("a.%%%.c", SERVICE, NOW_SECONDS).err(), Some(AuthError::InvalidClaims));
    assert_eq!(read_claims("a.e30=.c", SERVICE, NOW_SECONDS).err(), Some(AuthError::InvalidClaims));
}

#[test]
fn claims_are_read_without_the_signature() {
    let t = token("did:plc:alice", SERVICE, NOW_SECONDS + 60);
    let parts = split_token(&t).unwrap();
    let unsigned = format!("{}.{}.", parts.header, parts.payload);
    let claims = read_claims(&unsigned, SERVICE, NOW_SECONDS).unwrap();
    assert_eq!(claims.iss, "did:plc:alice");
    assert_eq!(claims.aud, SERVICE);
    assert_eq!(claims.exp, NOW_SECONDS + 60);
    assert_eq!(
        validate_jwt(&unsigned, SERVICE, NOW_SECONDS, Some(&issuer_key())).err(),
        Some(AuthError::BadSignature)
    );
}

#[test]
fn claims_check_names_each_refusal() {
    let some = |s: &str| Some(s.to_string());
    assert_eq!(check_claims(None, some(SERVICE), Some(9), SERVICE, 5).err(), Some(AuthError::InvalidClaims));
    assert_eq!(check_claims(some("a"), None, Some(9), SERVICE, 5).err(), Some(AuthError::InvalidClaims));
    assert_eq!(check_claims(some("a"), some(SERVICE), None, SERVICE, 5).err(), Some(AuthError::InvalidClaims));
    assert_eq!(check_claims(some("a"), some("b"), Some(9), SERVICE, 5).err(), Some(AuthError::AudienceMismatch));
    assert_eq!(check_claims(some("a"), some(SERVICE), Some(4), SERVICE, 5).err(), Some(AuthError::Expired));
    let claims = check_claims(some("a"), some(SERVICE), Some(5), SERVICE, 5).unwrap();
    assert_eq!((claims.iss.as_str(), claims.aud.as_str(), claims.exp), ("a", SERVICE, 5));
}

#[test]
fn signing_input_is_the_first_two_parts() {
    let input = signing_input("aGVhZA.Ym9keQ.AQID_w").unwrap();
    assert_eq!(input.message, "aGVhZA.Ym9keQ");
    assert_eq!(input.signature, vec![1u8, 2, 3, 255]);
    assert!(signing_input("aGVhZA.Ym9keQ.AQID/w").is_none());
    assert_eq!(signing_input("a.b.").unwrap().signature, Vec::<u8>::new());
}

#[test]
fn refusals_have_their_words() {
    assert_eq!(AuthError::Malformed.message(), "Invalid JWT format");
    assert_eq!(AuthError::InvalidClaims.message(), "Invalid JWT claims");
    assert_eq!(AuthError::AudienceMismatch.message(), "Invalid JWT audience");
    assert_eq!(AuthError::Expired.message(), "JWT has expired");
    assert_eq!(AuthError::BadSignature.message(), "Invalid JWT signature");
    assert_eq!(AuthError::UnresolvedKey.message(), "No atproto signing key found for the issuer");
}

#[test]
fn bearer_prefix_is_stripped() {
    assert_eq!(bearer_token("Bearer abc.def.ghi"), "abc.def.ghi");
    assert_eq!(bearer_token("abc.def.ghi"), "abc.def.ghi");
    assert_eq!(bearer_token("Bearer "), "");
    assert_eq!(bearer_token("bearer abc"), "bearer abc");
    assert_eq!(bearer_token("Bearer Bearer x"), "Bearer x");
}

#[test]
fn missing_authorization_is_refused() {
    let mut db = Database::new();
    let params = FeedSkeletonParams { feed: "f".to_string(), limit: None, cursor: None };
    let outcome =
        get_feed_skeleton(&mut db, Authorization::Missing, &params, SERVICE, NOW, Some(&issuer_key()));
    assert_eq!(outcome.reply.status(), 401);
    assert!(!outcome.backfill);
    assert_eq!(outcome.requester, None);
    match outcome.reply {
        FeedReply::Unauthorized(e) => {
            assert_eq!(e.error, "AuthenticationRequired");
            assert_eq!(
                e.message,
                "This feed shows posts from accounts you follow and requires authentication"
            );
        }
        _ => panic!("expected a refusal"),
    }
    assert!(db.get_active_users(7, NOW).is_empty());
}

#[test]
fn unreadable_authorization_is_refused() {
    let mut db = Database::new();
    let params = FeedSkeletonParams { feed: "f".to_string(), limit: None, cursor: None };
    let outcome = get_feed_skeleton(
        &mut db,
        Authorization::Unreadable,
        &params,
        SERVICE,
        NOW,
        Some(&issuer_key()),
    );
    assert_eq!(outcome.reply.status(), 401);
    match outcome.reply {
        FeedReply::Unauthorized(e) => {
            assert_eq!(e.error, "AuthenticationRequired");
            assert_eq!(e.message, "Invalid authorization header format");
        }
        _ => panic!("expected a refusal"),
    }
}

#[test]
fn refused_token_is_reported_with_its_reason() {
    let mut db = Database::new();
    let params = FeedSkeletonParams { feed: "f".to_string(), limit: None, cursor: None };
    let outcome = get_feed_skeleton(
        &mut db,
        Authorization::Header("Bearer a.b"),
        &params,
        SERVICE,
        NOW,
        Some(&issuer_key()),
    );
    match outcome.reply {
        FeedReply::Unauthorized(e) => {
            assert_eq!(e.error, "AuthenticationRequired");
            assert_eq!(e.message, "JWT validation failed: Invalid JWT format");
        }
        _ => panic!("expected a refusal"),
    }
    assert!(db.get_active_user("did:plc:alice").is_none());
}

#[test]
fn served_request_is_recorded_and_asks_for_backfill_once() {
    let mut db = Database::new();
    let t = token("did:plc:alice", SERVICE, NOW_SECONDS + 60);
    let header = format!("Bearer {}", t);
    let params = FeedSkeletonParams { feed: "f".to_string(), limit: Some(1), cursor: None };
    let key = issuer_key();
    let outcome =
        get_feed_skeleton(&mut db, Authorization::Header(&header), &params, SERVICE, NOW, Some(&key));
    assert_eq!(outcome.reply.status(), 200);
    assert!(outcome.backfill);
    assert_eq!(outcome.requester, Some("did:plc:alice".to_string()));
    assert_eq!(db.get_active_user("did:plc:alice").unwrap().last_feed_request, NOW);

    db.insert_follow(&Follow {
        uri: "at://did:plc:alice/app.bsky.graph.follow/1".to_string(),
        follower_did: "did:plc:alice".to_string(),
        target_did: "did:plc:bob".to_string(),
        created_at: NOW,
        indexed_at: NOW,
    });
    for (key, at) in [("1", NOW - 20), ("2", NOW - 10)] {
        db.insert_post(&Post {
            uri: format!("at://did:plc:bob/app.bsky.feed.post/{}", key),
            cid: "c".to_string(),
            author_did: "did:plc:bob".to_string(),
            text: "".to_string(),
            created_at: at,
            indexed_at: at,
        });
    }
    let outcome = get_feed_skeleton(
        &mut db,
        Authorization::Header(&header),
        &params,
        SERVICE,
        NOW + 5,
        Some(&key),
    );
    assert!(!outcome.backfill);
    assert_eq!(outcome.requester, Some("did:plc:alice".to_string()));
    assert_eq!(db.get_active_user("did:plc:alice").unwrap().last_feed_request, NOW + 5);
    match outcome.reply {
        FeedReply::Feed(response) => {
            assert_eq!(response.feed.len(), 1);
            assert_eq!(response.feed[0].post, "at://did:plc:bob/app.bsky.feed.post/2");
            assert_eq!(response.cursor, Some("2024-01-01T00:46:39.999990+00:00".to_string()));
        }
        _ => panic!("expected a feed"),
    }
}

#[test]
fn envelopes_carry_their_error_names() {
    let e = authentication_required("why".to_string());
    assert_eq!((e.error.as_str(), e.message.as_str()), ("AuthenticationRequired", "why"));
    let e = internal_error("disk full");
    assert_eq!(
        (e.error.as_str(), e.message.as_str()),
        ("InternalServerError", "Failed to generate feed: disk full")
    );
    assert_eq!(FeedReply::Failed(e).status(), 500);
}

#[test]
fn did_document_describes_the_service() {
    let doc = did_document("did:web:feed.example.com", "feed.example.com");
    assert_eq!(doc.context, vec!["https://www.w3.org/ns/did/v1".to_string()]);
    assert_eq!(doc.id, "did:web:feed.example.com");
    assert_eq!(doc.service.len(), 1);
    assert_eq!(doc.service[0].id, "#bsky_fg");
    assert_eq!(doc.service[0].service_type, "BskyFeedGenerator");
    assert_eq!(doc.service[0].service_endpoint, "https://feed.example.com");
    assert_eq!(service_did_for_host("feed.example.com"), "did:web:feed.example.com");
    assert_eq!(root(), "Following No Reposts Feed Generator");
}

#[test]
fn signing_key_is_the_did_key_of_the_multikey() {
    assert_eq!(signing_key(&issuer_key()), Some(keypair().did()));
    assert_eq!(
        signing_key("zQ3shokFTS3brHcDQrn82RUDfCZESWL1ZdCEJwekUDPQiYBme"),
        Some("did:key:zQ3shokFTS3brHcDQrn82RUDfCZESWL1ZdCEJwekUDPQiYBme".to_string())
    );
    let p256 = P256Keypair::import(&[9u8; 32]).unwrap().did();
    assert_eq!(signing_key(&p256["did:key:".len()..]), Some(p256.clone()));
}

#[test]
fn texts_that_hold_no_key_give_none() {
    for text in ["", "z", "z1", "z11", "zQ3sh", "not multibase", "did:key:zQ3sh", "f00", "f8024", "fe701"] {
        assert_eq!(signing_key(text), None);
    }
    assert!(multikey_safe(""));
    assert!(!multikey_safe("z"));
    assert!(!multikey_safe("z1"));
    assert!(multikey_safe("z11"));
    assert!(!multikey_safe("f00"));
    assert!(multikey_safe("f0000"));
    assert!(multikey_safe(&issuer_key()));
}

#[test]
fn signature_is_checked_under_the_given_key() {
    let t = token("did:plc:alice", SERVICE, NOW_SECONDS + 60);
    assert!(signature_holds(&t, &keypair().did()));
    let other = Secp256k1Keypair::import(&[8u8; 32]).unwrap().did();
    assert!(!signature_holds(&t, &other));
    assert!(!signature_holds(&t, "did:key:z"));
    assert!(!signature_holds(&t, "did:key:z1"));
    assert!(!signature_holds(&t, "did:key:"));
    assert!(!signature_holds(&t, &issuer_key()));
    assert!(!signature_holds("a.b", &keypair().did()));
    assert!(!signature_holds("a.b.c", &keypair().did()));
}

#[test]
fn token_without_a_usable_key_is_refused() {
    let t = token("did:plc:alice", SERVICE, NOW_SECONDS + 60);
    assert_eq!(validate_jwt(&t, SERVICE, NOW_SECONDS, None).err(), Some(AuthError::UnresolvedKey));
    assert_eq!(validate_jwt(&t, SERVICE, NOW_SECONDS, Some("z")).err(), Some(AuthError::UnresolvedKey));
    assert_eq!(
        validate_jwt(&t, SERVICE, NOW_SECONDS, Some("nonsense")).err(),
        Some(AuthError::UnresolvedKey)
    );
    let other = Secp256k1Keypair::import(&[8u8; 32]).unwrap().did();
    assert_eq!(
        validate_jwt(&t, SERVICE, NOW_SECONDS, Some(&other["did:key:".len()..])).err(),
        Some(AuthError::BadSignature)
    );
    let expired = token("did:plc:alice", SERVICE, NOW_SECONDS - 1);
    assert_eq!(validate_jwt(&expired, SERVICE, NOW_SECONDS, None).err(), Some(AuthError::Expired));
    let mut db = Database::new();
    let params = FeedSkeletonParams { feed: "f".to_string(), limit: None, cursor: None };
    let header = format!("Bearer {}", t);
    let outcome =
        get_feed_skeleton(&mut db, Authorization::Header(&header), &params, SERVICE, NOW, None);
    assert_eq!(outcome.reply.status(), 401);
    match outcome.reply {
        FeedReply::Unauthorized(e) => assert_eq!(
            e.message,
            "JWT validation failed: No atproto signing key found for the issuer"
        ),
        _ => panic!("expected a refusal"),
    }
}

#[test]
fn verdict_follows_claims_key_and_signature() {
    let claims = || check_claims(Some("a".to_string()), Some(SERVICE.to_string()), Some(9), SERVICE, 5);
    assert!(verdict(claims(), true, true).is_ok());
    assert_eq!(verdict(claims(), true, false).err(), Some(AuthError::BadSignature));
    assert_eq!(verdict(claims(), false, true).err(), Some(AuthError::UnresolvedKey));
    assert_eq!(verdict(claims(), false, false).err(), Some(AuthError::UnresolvedKey));
    assert_eq!(verdict(Err(AuthError::Expired), true, true).err(), Some(AuthError::Expired));
    assert_eq!(verdict(Err(AuthError::Malformed), false, false).err(), Some(AuthError::Malformed));
}
