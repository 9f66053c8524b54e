//! Decisions of the access-token cache: when to refresh, what a refresh
//! reply means, which cache entries to write and which to evict.
//!
//! The cache holds a forward entry per owner (`bot:<id>:token` or
//! `user:<id>:token`, the token) and a reverse entry per token
//! (`token:<token>`, the owner). The functions here return the cache
//! operations to perform; the caller performs them in order.

use vstd::prelude::*;
use crate::text::push_text;

verus! {

/// A failed refresh: transient (`RequestError`) or terminal for this
/// refresh credential (`Expired`, `Invalid`).
#[derive(Debug, Clone, Copy, PartialEq, Eq, Structural)]
pub enum AuthError {
    RequestError,
    Expired,
    Invalid,
}

/// Whose token an entry holds.
#[derive(Debug, Clone, Copy, PartialEq, Eq, Structural)]
pub enum TokenType {
    Bot,
    User,
}

/// The owner of a token, as the reverse entry records it.
pub struct TokenInfo {
    pub token_type: TokenType,
    pub id: String,
}

/// The fields of a successful refresh reply that the cache needs.
pub struct TokenGrant {
    pub access_token: String,
    pub refresh_token: String,
    pub expires_in: i64,
}

/// What the token endpoint answered to a refresh request.
pub enum RefreshReply {
    /// The request did not complete.
    Unreachable,
    /// An HTTP status, with the decoded body when the status is 200 and the
    /// body decoded.
    Replied { status: u16, grant: Option<TokenGrant> },
}

/// What the validation endpoint answered.
#[derive(Clone, Copy)]
pub enum ValidateReply {
    Unreachable,
    Replied { status: u16 },
}

/// A failed validation; either way the token is evicted.
#[derive(Debug, Clone, Copy, PartialEq, Eq, Structural)]
pub enum ValidationError {
    RequestError,
    InvalidToken,
}

/// The next step of a token lookup.
pub enum TokenStep {
    /// The forward entry holds this token: use it, no remote call.
    Cached(String),
    /// No live forward entry: refresh against the remote endpoint.
    Refresh,
}

/// One cache operation; `ttl_secs` is the entry's time to live.
pub enum CacheOp {
    SetToken { key: String, token: String, ttl_secs: u64 },
    SetInfo { key: String, info: TokenInfo, ttl_secs: u64 },
    Delete { key: String },
}

/// What a refresh leaves to do: persist the rotated refresh credential, then
/// perform `cache_ops`, and use `access_token`.
pub struct RefreshPlan {
    pub access_token: String,
    pub refresh_token: String,
    pub cache_ops: Vec<CacheOp>,
}

/// A cached value: a token, or a token's owner.
pub enum CachedValue {
    Token(Seq<char>),
    Info(TokenType, Seq<char>),
}

/// The effect of a cache operation on the cache contents.
pub enum OpView {
    Write(Seq<char>, CachedValue),
    Remove(Seq<char>),
}

/// Seconds by which a cached token expires before the remote one.
pub const TTL_MARGIN_SECS: i64 = 1200;

/// The forward key of an owner.
pub open spec fn forward_key_of(kind: TokenType, id: Seq<char>) -> Seq<char> {
    match kind {
        TokenType::Bot => "bot:"@ + id + ":token"@,
        TokenType::User => "user:"@ + id + ":token"@,
    }
}

/// The reverse key of a token.
pub open spec fn reverse_key_of(token: Seq<char>) -> Seq<char> {
    "token:"@ + token
}

impl CacheOp {
    /// The time to live that a write gives its entry.
    pub open spec fn ttl(&self) -> Option<int> {
        match self {
            CacheOp::SetToken { ttl_secs, .. } => Some(*ttl_secs as int),
            CacheOp::SetInfo { ttl_secs, .. } => Some(*ttl_secs as int),
            CacheOp::Delete { .. } => None,
        }
    }

    pub open spec fn view(&self) -> OpView {
        match self {
            CacheOp::SetToken { key, token, .. } => OpView::Write(key@, CachedValue::Token(token@)),
            CacheOp::SetInfo { key, info, .. } => OpView::Write(key@, CachedValue::Info(info.token_type, info.id@)),
            CacheOp::Delete { key } => OpView::Remove(key@),
        }
    }
}

/// The effects of a list of cache operations.
pub open spec fn ops_view(ops: Seq<CacheOp>) -> Seq<OpView> {
    ops.map_values(|o: CacheOp| o.view())
}

/// The cache after one operation.
pub open spec fn apply_op(c: Map<Seq<char>, CachedValue>, op: OpView) -> Map<Seq<char>, CachedValue> {
    match op {
        OpView::Write(k, v) => c.insert(k, v),
        OpView::Remove(k) => c.remove(k),
    }
}

/// The cache after a list of operations, in order.
pub open spec fn apply_ops(c: Map<Seq<char>, CachedValue>, ops: Seq<OpView>) -> Map<Seq<char>, CachedValue>
    decreases ops.len(),
{
    if ops.len() == 0 {
        c
    } else {
        apply_op(apply_ops(c, ops.drop_last()), ops.last())
    }
}

/// The owner that the reverse entry of `token` records, if any.
pub open spec fn token_info_in(c: Map<Seq<char>, CachedValue>, token: Seq<char>) -> Option<(TokenType, Seq<char>)> {
    if c.contains_key(reverse_key_of(token)) {
        match c[reverse_key_of(token)] {
            CachedValue::Info(kind, id) => Some((kind, id)),
            CachedValue::Token(_) => None,
        }
    } else {
        None
    }
}

/// The operations that evict `token`, given the owner its reverse entry records.
pub open spec fn delete_ops(token: Seq<char>, owner: Option<(TokenType, Seq<char>)>) -> Seq<OpView> {
    match owner {
        Some((kind, id)) => seq![OpView::Remove(forward_key_of(kind, id)), OpView::Remove(reverse_key_of(token))],
        None => Seq::empty(),
    }
}

/// The outcome of a refresh reply.
pub open spec fn refresh_outcome(reply: RefreshReply) -> Result<TokenGrant, AuthError> {
    match reply {
        RefreshReply::Unreachable => Err(AuthError::RequestError),
        RefreshReply::Replied { status, grant } => if status == 400 {
            Err(AuthError::Invalid)
        } else if status == 401 {
            Err(AuthError::Expired)
        } else if status == 200 && grant is Some {
            Ok(grant->Some_0)
        } else {
            Err(AuthError::RequestError)
        },
    }
}

/// The outcome of a refresh that got `reply`: the grant, or the error. A
/// grant that would not outlive `TTL_MARGIN_SECS` cannot be cached with a
/// positive lifetime and is a request error.
pub open spec fn refresh_result(reply: RefreshReply) -> Result<TokenGrant, AuthError> {
    match refresh_outcome(reply) {
        Ok(g) => if g.expires_in > TTL_MARGIN_SECS {
            Ok(g)
        } else {
            Err(AuthError::RequestError)
        },
        Err(e) => Err(e),
    }
}

/// The cache writes of a successful refresh for bot `bot`: the forward and
/// the reverse entry.
pub open spec fn refresh_ops(bot: Seq<char>, g: TokenGrant) -> Seq<OpView> {
    seq![
        OpView::Write(forward_key_of(TokenType::Bot, bot), CachedValue::Token(g.access_token@)),
        OpView::Write(reverse_key_of(g.access_token@), CachedValue::Info(TokenType::Bot, bot)),
    ]
}

/// The cache operations that a planned refresh asks for.
pub open spec fn attempt_ops(r: Result<RefreshPlan, AuthError>) -> Seq<OpView> {
    match r {
        Ok(p) => ops_view(p.cache_ops@),
        Err(_) => Seq::empty(),
    }
}

/// The cache operations of a refresh of bot `bot` that got `reply`.
pub open spec fn refresh_attempt_ops(bot: Seq<char>, reply: RefreshReply) -> Seq<OpView> {
    match refresh_result(reply) {
        Ok(g) => refresh_ops(bot, g),
        Err(_) => Seq::empty(),
    }
}

/// The forward key of an owner.
pub fn forward_key(kind: TokenType, id: &str) -> (r: String)
    ensures
        r@ == forward_key_of(kind, id@),
{
    let mut r = String::new();
    match kind {
        TokenType::Bot => push_text(&mut r, "bot:"),
        TokenType::User => push_text(&mut r, "user:"),
    }
    push_text(&mut r, id);
    push_text(&mut r, ":token");
    assert(r@ =~= forward_key_of(kind, id@));
    r
}

/// The pattern that matches every forward key of one owner kind.
pub fn forward_key_pattern(kind: TokenType) -> (r: String)
    ensures
        r@ == forward_key_of(kind, "*"@),
{
    forward_key(kind, "*")
}

/// The reverse key of a token.
pub fn reverse_key(token: &str) -> (r: String)
    ensures
        r@ == reverse_key_of(token@),
{
    let mut r = String::new();
    push_text(&mut r, "token:");
    push_text(&mut r, token);
    assert(r@ =~= reverse_key_of(token@));
    r
}

/// Looks up a bot's token: a live forward entry is used as it is, with no
/// remote call; otherwise the token is refreshed.
pub fn get_bot_token(cached: Option<String>) -> (r: TokenStep)
    ensures
        match cached {
            Some(t) => r matches TokenStep::Cached(u) && u@ == t@,
            None => r is Refresh,
        },
{
    match cached {
        Some(t) => TokenStep::Cached(t),
        None => TokenStep::Refresh,
    }
}

/// Reads the token endpoint's reply: 200 with a body is the new grant, 400
/// means the refresh credential is invalid, 401 that it expired, anything else
/// is a request error.
pub fn refresh_token(reply: RefreshReply) -> (r: Result<TokenGrant, AuthError>)
    ensures
        r == refresh_outcome(reply),
{
    match reply {
        RefreshReply::Unreachable => Err(AuthError::RequestError),
        RefreshReply::Replied { status, grant } => if status == 400 {
            Err(AuthError::Invalid)
        } else if status == 401 {
            Err(AuthError::Expired)
        } else if status == 200 {
            match grant {
                Some(g) => Ok(g),
                None => Err(AuthError::RequestError),
            }
        } else {
            Err(AuthError::RequestError)
        },
    }
}

/// Plans a bot token refresh from the endpoint's reply: on success the new
/// token, the rotated refresh credential, and the forward and reverse cache
/// writes, both living `expires_in - TTL_MARGIN_SECS` seconds; on failure the
/// error, and nothing to write.
pub fn refresh_bot_token(bot: &str, reply: RefreshReply) -> (r: Result<RefreshPlan, AuthError>)
    ensures
        match refresh_result(reply) {
            Ok(g) => r matches Ok(p) && p.access_token@ == g.access_token@ && p.refresh_token@
                == g.refresh_token@ && ops_view(p.cache_ops@) == refresh_ops(bot@, g) && forall|i: int|
                0 <= i < p.cache_ops@.len() ==> #[trigger] p.cache_ops@[i].ttl() == Some(
                    g.expires_in - TTL_MARGIN_SECS,
                ),
            Err(e) => r == Err::<RefreshPlan, AuthError>(e),
        },
        attempt_ops(r) == refresh_attempt_ops(bot@, reply),
{
    let g = match refresh_token(reply) {
        Ok(g) => g,
        Err(e) => return Err(e),
    };
    if g.expires_in <= TTL_MARGIN_SECS {
        return Err(AuthError::RequestError);
    }
    let ttl = (g.expires_in - TTL_MARGIN_SECS) as u64;
    let mut cache_ops: Vec<CacheOp> = Vec::new();
    cache_ops.push(
        CacheOp::SetToken { key: forward_key(TokenType::Bot, bot), token: g.access_token.clone(), ttl_secs: ttl },
    );
    let mut id = String::new();
    push_text(&mut id, bot);
    assert(id@ =~= bot@);
    cache_ops.push(
        CacheOp::SetInfo {
            key: reverse_key(g.access_token.as_str()),
            info: TokenInfo { token_type: TokenType::Bot, id },
            ttl_secs: ttl,
        },
    );
    assert(ops_view(cache_ops@) =~= refresh_ops(bot@, g));
    Ok(RefreshPlan { access_token: g.access_token, refresh_token: g.refresh_token, cache_ops })
}

/// Reads the validation endpoint's reply: only 200 keeps the token.
pub fn validate_token(reply: ValidateReply) -> (r: Result<(), ValidationError>)
    ensures
        match reply {
            ValidateReply::Unreachable => r == Err::<(), ValidationError>(ValidationError::RequestError),
            ValidateReply::Replied { status } => if status == 200 {
                r is Ok
            } else {
                r == Err::<(), ValidationError>(ValidationError::InvalidToken)
            },
        },
{
    match reply {
        ValidateReply::Unreachable => Err(ValidationError::RequestError),
        ValidateReply::Replied { status } => if status == 200 {
            Ok(())
        } else {
            Err(ValidationError::InvalidToken)
        },
    }
}

/// The evictions for `token`, given the owner its reverse entry records:
/// the owner's forward entry and the reverse entry; nothing without an owner.
pub fn delete_token(token: &str, info: Option<TokenInfo>) -> (r: Vec<CacheOp>)
    ensures
        ops_view(r@) == delete_ops(
            token@,
            match info {
                Some(i) => Some((i.token_type, i.id@)),
                None => None,
            },
        ),
{
    let mut ops: Vec<CacheOp> = Vec::new();
    match info {
        Some(i) => {
            ops.push(CacheOp::Delete { key: forward_key(i.token_type, i.id.as_str()) });
            ops.push(CacheOp::Delete { key: reverse_key(token) });
        },
        None => {},
    }
    assert(ops_view(ops@) =~= delete_ops(
        token@,
        match info {
            Some(i) => Some((i.token_type, i.id@)),
            None => None,
        },
    ));
    ops
}

/// The evictions after a validation of `token` that got `reply`, given the
/// owner its reverse entry records: none when the token is valid (200),
/// otherwise the owner's forward entry and the reverse entry.
pub fn evict_after_validation(token: &str, reply: ValidateReply, info: Option<TokenInfo>) -> (r: Vec<CacheOp>)
    ensures
        ops_view(r@) == match reply {
            ValidateReply::Replied { status } if status == 200 => Seq::<OpView>::empty(),
            _ => delete_ops(
                token@,
                match info {
                    Some(i) => Some((i.token_type, i.id@)),
                    None => None,
                },
            ),
        },
{
    match validate_token(reply) {
        Ok(()) => {
            let ops: Vec<CacheOp> = Vec::new();
            assert(ops_view(ops@) =~= Seq::<OpView>::empty());
            ops
        },
        Err(_) => delete_token(token, info),
    }
}

/// A reply of 401 to a refresh is `Expired`, and the attempt leaves the
/// cache as it was: neither the forward nor the reverse entry is written.
pub proof fn expired_refresh_writes_nothing(
    c: Map<Seq<char>, CachedValue>,
    bot: Seq<char>,
    reply: RefreshReply,
)
    requires
        reply matches RefreshReply::Replied { status, .. } && status == 401,
    ensures
        refresh_outcome(reply) == Err::<TokenGrant, AuthError>(AuthError::Expired),
        apply_ops(c, refresh_attempt_ops(bot, reply)) == c,
{
}

/// After a successful refresh the forward entry holds the new token and the
/// reverse entry records the bot as its owner.
pub proof fn refreshed_token_is_cached(c: Map<Seq<char>, CachedValue>, bot: Seq<char>, reply: RefreshReply)
    requires
        refresh_result(reply) is Ok,
    ensures
        ({
            let g = refresh_result(reply)->Ok_0;
            let after = apply_ops(c, refresh_attempt_ops(bot, reply));
            &&& after.contains_key(forward_key_of(TokenType::Bot, bot))
            &&& after[forward_key_of(TokenType::Bot, bot)] == CachedValue::Token(g.access_token@)
            &&& after.contains_key(reverse_key_of(g.access_token@))
            &&& after[reverse_key_of(g.access_token@)] == CachedValue::Info(TokenType::Bot, bot)
        }),
{
    let g = refresh_result(reply)->Ok_0;
    let ops = refresh_ops(bot, g);
    assert(refresh_attempt_ops(bot, reply) == ops);
    let one = ops.drop_last();
    assert(one.drop_last() =~= Seq::<OpView>::empty());
    assert(apply_ops(c, one.drop_last()) == c);
    assert(one.last() == ops[0]);
    assert(apply_ops(c, one) == apply_op(c, ops[0]));
    let fk = forward_key_of(TokenType::Bot, bot);
    let rk = reverse_key_of(g.access_token@);
    if fk == rk {
        reveal_strlit("bot:");
        reveal_strlit("token:");
        assert(fk[0] == 'b');
        assert(rk[0] == 't');
    }
}

/// Deleting a token removes its reverse entry, so a later lookup of its owner
/// finds none; deleting it again finds no owner and changes nothing. This
/// holds of a cache whose reverse entry for the token, if any, records an owner.
pub proof fn delete_then_lookup_finds_nothing(c: Map<Seq<char>, CachedValue>, token: Seq<char>)
    requires
        c.contains_key(reverse_key_of(token)) ==> c[reverse_key_of(token)] is Info,
    ensures
        ({
            let once = apply_ops(c, delete_ops(token, token_info_in(c, token)));
            let twice = apply_ops(once, delete_ops(token, token_info_in(once, token)));
            &&& token_info_in(once, token) is None
            &&& !once.contains_key(reverse_key_of(token))
            &&& delete_ops(token, token_info_in(once, token)).len() == 0
            &&& twice == once
        }),
{
    let ops = delete_ops(token, token_info_in(c, token));
    if ops.len() == 2 {
        let one = ops.drop_last();
        assert(one.drop_last() =~= Seq::<OpView>::empty());
        assert(apply_ops(c, one.drop_last()) == c);
        assert(apply_ops(c, one) == apply_op(c, ops[0]));
    }
    let once = apply_ops(c, ops);
    assert(delete_ops(token, token_info_in(once, token)) =~= Seq::<OpView>::empty());
}

} // verus!
