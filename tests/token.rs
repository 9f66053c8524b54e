use std::collections::HashMap;
use twitch_chat::token::{
    delete_token, evict_after_validation, forward_key, forward_key_pattern, get_bot_token, refresh_bot_token, refresh_token, reverse_key,
    validate_token, AuthError, CacheOp, RefreshReply, TokenGrant, TokenInfo, TokenStep, TokenType, ValidateReply,
    ValidationError,
};

fn grant(expires_in: i64) -> TokenGrant {
    TokenGrant { access_token: "acc".to_string(), refresh_token: "ref2".to_string(), expires_in }
}

#[test]
fn cache_keys() {
    assert_eq!(forward_key(TokenType::Bot, "dustin"), "bot:dustin:token");
    assert_eq!(forward_key(TokenType::User, "42"), "user:42:token");
    assert_eq!(forward_key_pattern(TokenType::Bot), "bot:*:token");
    assert_eq!(forward_key_pattern(TokenType::User), "user:*:token");
    assert_eq!(reverse_key("abc"), "token:abc");
}

#[test]
fn cached_token_needs_no_refresh() {
    match get_bot_token(Some("tok".to_string())) {
        TokenStep::Cached(t) => assert_eq!(t, "tok"),
        TokenStep::Refresh => panic!("a cached token must be used"),
    }
    assert!(matches!(get_bot_token(None), TokenStep::Refresh));
}

#[test]
fn refresh_reply_statuses() {
    assert_eq!(refresh_token(RefreshReply::Unreachable).err(), Some(AuthError::RequestError));
    assert_eq!(refresh_token(RefreshReply::Replied { status: 400, grant: None }).err(), Some(AuthError::Invalid));
    assert_eq!(refresh_token(RefreshReply::Replied { status: 401, grant: None }).err(), Some(AuthError::Expired));
    assert_eq!(refresh_token(RefreshReply::Replied { status: 200, grant: None }).err(), Some(AuthError::RequestError));
    assert_eq!(refresh_token(RefreshReply::Replied { status: 500, grant: None }).err(), Some(AuthError::RequestError));
    let g = refresh_token(RefreshReply::Replied { status: 200, grant: Some(grant(100)) }).ok().unwrap();
    assert_eq!(g.access_token, "acc");
}

#[test]
fn expired_refresh_writes_no_entry() {
    let r = refresh_bot_token("dustin", RefreshReply::Replied { status: 401, grant: Some(grant(14400)) });
    assert_eq!(r.err(), Some(AuthError::Expired));
}

#[test]
fn successful_refresh_writes_both_entries() {
    let plan = refresh_bot_token("dustin", RefreshReply::Replied { status: 200, grant: Some(grant(14400)) })
        .ok()
        .unwrap();
    assert_eq!(plan.access_token, "acc");
    assert_eq!(plan.refresh_token, "ref2");
    assert_eq!(plan.cache_ops.len(), 2);
    match &plan.cache_ops[0] {
        CacheOp::SetToken { key, token, ttl_secs } => {
            assert_eq!(key, "bot:dustin:token");
            assert_eq!(token, "acc");
            assert_eq!(*ttl_secs, 13200);
        }
        _ => panic!("forward entry first"),
    }
    match &plan.cache_ops[1] {
        CacheOp::SetInfo { key, info, ttl_secs } => {
            assert_eq!(key, "token:acc");
            assert_eq!(info.token_type, TokenType::Bot);
            assert_eq!(info.id, "dustin");
            assert_eq!(*ttl_secs, 13200);
        }
        _ => panic!("reverse entry second"),
    }
}

#[test]
fn short_lived_token_is_a_request_error() {
    let r = refresh_bot_token("dustin", RefreshReply::Replied { status: 200, grant: Some(grant(1200)) });
    assert_eq!(r.err(), Some(AuthError::RequestError));
    let plan = refresh_bot_token("dustin", RefreshReply::Replied { status: 200, grant: Some(grant(1201)) })
        .ok()
        .unwrap();
    match &plan.cache_ops[0] {
        CacheOp::SetToken { ttl_secs, .. } => assert_eq!(*ttl_secs, 1),
        _ => panic!("forward entry first"),
    }
}

#[test]
fn failed_validation_evicts_both_entries() {
    let owner = || Some(TokenInfo { token_type: TokenType::Bot, id: "dustin".to_string() });
    assert!(evict_after_validation("acc", ValidateReply::Replied { status: 200 }, owner()).is_empty());
    for reply in [ValidateReply::Replied { status: 401 }, ValidateReply::Unreachable] {
        let keys: Vec<String> = evict_after_validation("acc", reply, owner())
            .into_iter()
            .map(|o| match o {
                CacheOp::Delete { key } => key,
                _ => panic!("only deletions"),
            })
            .collect();
        assert_eq!(keys, vec!["bot:dustin:token".to_string(), "token:acc".to_string()]);
    }
    assert!(evict_after_validation("acc", ValidateReply::Unreachable, None).is_empty());
}

#[test]
fn validation_statuses() {
    assert_eq!(validate_token(ValidateReply::Replied { status: 200 }), Ok(()));
    assert_eq!(validate_token(ValidateReply::Replied { status: 401 }), Err(ValidationError::InvalidToken));
    assert_eq!(validate_token(ValidateReply::Unreachable), Err(ValidationError::RequestError));
}

fn apply(cache: &mut HashMap<String, String>, ops: Vec<CacheOp>) {
    for op in ops {
        match op {
            CacheOp::SetToken { key, token, .. } => {
                cache.insert(key, token);
            }
            CacheOp::SetInfo { key, info, .. } => {
                cache.insert(key, format!("{:?}:{}", info.token_type, info.id));
            }
            CacheOp::Delete { key } => {
                cache.remove(&key);
            }
        }
    }
}

#[test]
fn delete_then_lookup_is_none_and_repeatable() {
    let mut cache: HashMap<String, String> = HashMap::new();
    let plan = refresh_bot_token("dustin", RefreshReply::Replied { status: 200, grant: Some(grant(14400)) })
        .ok()
        .unwrap();
    apply(&mut cache, plan.cache_ops);
    cache.insert("bot:other:token".to_string(), "zzz".to_string());
    assert_eq!(cache.len(), 3);

    let info = TokenInfo { token_type: TokenType::Bot, id: "dustin".to_string() };
    apply(&mut cache, delete_token("acc", Some(info)));
    assert!(cache.get("token:acc").is_none());
    assert!(cache.get("bot:dustin:token").is_none());
    assert_eq!(cache.len(), 1);

    let again = delete_token("acc", None);
    assert!(again.is_empty());
    apply(&mut cache, again);
    assert_eq!(cache.len(), 1);
}

#[test]
fn delete_user_token_targets_user_key() {
    let ops = delete_token("t", Some(TokenInfo { token_type: TokenType::User, id: "7".to_string() }));
    let keys: Vec<String> = ops
        .into_iter()
        .map(|o| match o {
            CacheOp::Delete { key } => key,
            _ => panic!("only deletions"),
        })
        .collect();
    assert_eq!(keys, vec!["user:7:token".to_string(), "token:t".to_string()]);
}
