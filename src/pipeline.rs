//! The ingestion handlers: chat messages and their authors accumulate in
//! pending buffers, deletions mark records in place, and a periodic flush
//! takes both buffers as one batch.

use vstd::prelude::*;
use crate::decode::DecodeError;
use crate::irc_parser::{IRCCommandType, MessageView, ParsedMessage};
use crate::privmsg_tag::{opt_view, privmsg_error, privmsg_fields, PrivMsgView, UserType};
use crate::clearmsg_tag::clearmsg_error;
use crate::number::parse_i64;
use crate::clearmsg_tag::int64_of;
use crate::text::{chars_of, string_of, strings_view};
use crate::time::{is_representable_millis, millis_representable};

verus! {

/// A chat message as it is stored, keyed by `msg_id`.
pub struct ChatMessageRecord {
    pub msg_id: String,
    pub channel_id: i32,
    pub channel_name: String,
    pub nick: String,
    pub display_name: String,
    pub user_id: i32,
    pub badge_info: Option<String>,
    pub badges: Option<String>,
    pub bits: i32,
    pub color: String,
    pub moderator: bool,
    pub reply_msg_id: Option<String>,
    pub reply_msg_nick: Option<String>,
    pub reply_msg_display_name: Option<String>,
    pub reply_msg_body: Option<String>,
    pub subscriber: bool,
    pub timestamp_ms: i64,
    pub turbo: bool,
    pub user_type: UserType,
    pub vip: bool,
    pub admin: bool,
    pub body: String,
    pub emotes: Option<String>,
    pub deleted: bool,
    pub deleted_timestamp_ms: Option<i64>,
    pub created_at_ms: i64,
    pub updated_at_ms: i64,
}

/// A chat author as it is stored, keyed by `id`.
pub struct UserRecord {
    pub id: i32,
    pub nick: String,
    pub display_name: String,
    pub updated_at_ms: i64,
}

/// Why a line was not taken into the buffers.
#[derive(Debug, Clone, Copy, PartialEq, Eq, Structural)]
pub enum IngestError {
    /// A chat message without a trailing payload.
    NoMessage,
    /// A line without a tag block.
    NoTags,
    /// The typed tags did not decode.
    Tags(DecodeError),
    /// A chat message without a channel parameter.
    NoChannel,
    /// A deletion whose target is neither pending nor stored.
    TargetNotFound,
}

/// What a deletion did.
pub enum ClearOutcome {
    /// The target was pending and is now marked deleted in the buffer.
    MarkedPending,
    /// The target is not pending: it has to be marked in the durable store.
    NotPending { target_msg_id: String },
}

/// What the read loop does with a parsed line.
#[derive(Debug, Clone, Copy, PartialEq, Eq, Structural)]
pub enum LineAction {
    /// Reply with a PONG at once, without touching the buffers.
    Pong,
    /// Take the line with `handle_privmsg_save`.
    SaveChat,
    /// Take the line with `handle_clearmsg_update`.
    ClearChat,
    /// Ignore the line.
    Ignore,
}

/// The action for each kind of line.
pub open spec fn action_for(command: IRCCommandType) -> LineAction {
    match command {
        IRCCommandType::PING => LineAction::Pong,
        IRCCommandType::PRIVMSG => LineAction::SaveChat,
        IRCCommandType::CLEARMSG => LineAction::ClearChat,
        _ => LineAction::Ignore,
    }
}

/// Dispatches a parsed line by its command.
pub fn line_action(msg: &ParsedMessage) -> (r: LineAction)
    ensures
        r == action_for(msg.command.command),
{
    match msg.command.command {
        IRCCommandType::PING => LineAction::Pong,
        IRCCommandType::PRIVMSG => LineAction::SaveChat,
        IRCCommandType::CLEARMSG => LineAction::ClearChat,
        _ => LineAction::Ignore,
    }
}

/// The contents of both buffers, taken by one flush.
pub struct Batch {
    pub messages: Vec<ChatMessageRecord>,
    pub users: Vec<UserRecord>,
}

/// `parts` joined with `sep` between neighbours.
pub open spec fn join_on(parts: Seq<Seq<char>>, sep: char) -> Seq<char>
    decreases parts.len(),
{
    if parts.len() == 0 {
        Seq::<char>::empty()
    } else if parts.len() == 1 {
        parts[0]
    } else {
        join_on(parts.drop_last(), sep).push(sep) + parts.last()
    }
}

/// A channel parameter without its leading `#`.
pub open spec fn channel_name_of(param: Seq<char>) -> Seq<char> {
    if param.len() > 0 && param[0] == '#' {
        param.skip(1)
    } else {
        param
    }
}

/// The event time of a message sent at `ms`: that instant when chrono can
/// represent it, else `now`.
pub open spec fn event_time(ms: int, now: int) -> int {
    if millis_representable(ms) {
        ms
    } else {
        now
    }
}

/// Why a chat-message line is refused, if it is.
pub open spec fn privmsg_rejection(m: MessageView) -> Option<IngestError> {
    if m.trailing is None {
        Some(IngestError::NoMessage)
    } else if m.tags is None {
        Some(IngestError::NoTags)
    } else if privmsg_error(m.tags->Some_0) is Some {
        Some(IngestError::Tags(privmsg_error(m.tags->Some_0)->Some_0))
    } else if m.params.len() == 0 {
        Some(IngestError::NoChannel)
    } else {
        None
    }
}

/// Some user of `users` has id `id`.
pub open spec fn user_listed(users: Seq<UserRecord>, id: i32) -> bool {
    exists|i: int| 0 <= i < users.len() && (#[trigger] users[i]).id == id
}

/// No two users of `users` share an id.
pub open spec fn user_ids_unique(users: Seq<UserRecord>) -> bool {
    forall|i: int, j: int| 0 <= i < j < users.len() ==> (#[trigger] users[i]).id != (#[trigger] users[j]).id
}

impl ChatMessageRecord {
    /// This is the record of chat line `m` with decoded tags `t`, taken at `now`.
    pub open spec fn is_record_of(&self, m: MessageView, t: PrivMsgView, now: int) -> bool {
        &&& self.msg_id@ == t.id
        &&& self.channel_id as int == t.room_id
        &&& self.channel_name@ == channel_name_of(m.params[0])
        &&& self.nick@ == m.nick
        &&& self.display_name@ == t.display_name
        &&& self.user_id as int == t.user_id
        &&& opt_view(self.badge_info) == t.badge_info
        &&& opt_view(self.badges) == Some(join_on(t.badges, ','))
        &&& self.bits as int == t.bits
        &&& self.color@ == t.color
        &&& self.moderator == t.moderator
        &&& opt_view(self.reply_msg_id) == t.reply_parent_msg_id
        &&& opt_view(self.reply_msg_nick) == t.reply_parent_user_nick
        &&& opt_view(self.reply_msg_display_name) == t.reply_parent_user_display_name
        &&& opt_view(self.reply_msg_body) == t.reply_parent_body
        &&& self.subscriber == t.subscriber
        &&& self.timestamp_ms as int == event_time(int64_of(t.tmi_sent_ts)->Some_0, now)
        &&& self.turbo == t.turbo
        &&& self.user_type == t.user_type
        &&& self.vip == t.vip
        &&& self.admin == t.admin
        &&& self.body@ == m.trailing->Some_0
        &&& opt_view(self.emotes) == t.emotes
        &&& !self.deleted
        &&& self.deleted_timestamp_ms is None
        &&& self.created_at_ms as int == now
        &&& self.updated_at_ms as int == now
    }
}

/// `r` soft-deleted at `now`, every other field kept.
pub open spec fn marked_deleted(r: ChatMessageRecord, now: i64) -> ChatMessageRecord {
    ChatMessageRecord { deleted: true, deleted_timestamp_ms: Some(now), updated_at_ms: now, ..r }
}

/// Joins `parts` with `sep`.
fn join_strings(parts: &Vec<String>, sep: &str) -> (r: String)
    requires
        sep@.len() == 1,
    ensures
        r@ == join_on(strings_view(parts@), sep@[0]),
{
    let mut r = String::new();
    let mut i: usize = 0;
    let ghost ps = strings_view(parts@);
    while i < parts.len()
        invariant
            i <= parts@.len(),
            ps == strings_view(parts@),
            sep@.len() == 1,
            r@ == join_on(ps.take(i as int), sep@[0]),
        decreases parts.len() - i,
    {
        assert(ps.take(i + 1).drop_last() =~= ps.take(i as int));
        if i > 0 {
            r.append(sep);
            assert(sep@ =~= seq![sep@[0]]);
        } else {
            assert(ps.take(1) =~= seq![ps[0]]);
        }
        r.append(parts[i].as_str());
        i = i + 1;
    }
    assert(ps.take(i as int) =~= ps);
    r
}

/// The channel name of a channel parameter.
fn channel_name(param: &String) -> (r: String)
    ensures
        r@ == channel_name_of(param@),
{
    let v = chars_of(param.as_str());
    let n = v.len();
    if n > 0 && v[0] == '#' {
        string_of(&v, 1, n)
    } else {
        assert(v@.subrange(0, n as int) =~= v@);
        string_of(&v, 0, n)
    }
}

/// The event time of a chat message sent at `sent_ms` (milliseconds since
/// the epoch): that instant, or `now_ms` when it is no representable date.
pub fn event_time_ms(sent_ms: i64, now_ms: i64) -> (r: i64)
    ensures
        r as int == event_time(sent_ms as int, now_ms as int),
{
    if is_representable_millis(sent_ms) {
        sent_ms
    } else {
        now_ms
    }
}

/// Whether a user with id `id` is pending.
fn has_user(users: &Vec<UserRecord>, id: i32) -> (r: bool)
    ensures
        r == user_listed(users@, id),
{
    let mut i: usize = 0;
    while i < users.len()
        invariant
            i <= users@.len(),
            forall|j: int| 0 <= j < i ==> (#[trigger] users@[j]).id != id,
        decreases users.len() - i,
    {
        if users[i].id == id {
            return true;
        }
        i = i + 1;
    }
    false
}

/// Takes a chat-message line into the pending buffers: its author joins
/// `users` unless already there, and its record is appended to `msg_vec`.
/// A refused line leaves both buffers as they were.
pub fn handle_privmsg_save(
    msg: &ParsedMessage,
    msg_vec: &mut Vec<ChatMessageRecord>,
    users: &mut Vec<UserRecord>,
    now_ms: i64,
) -> (r: Result<(), IngestError>)
    ensures
        match privmsg_rejection(msg@) {
            Some(e) => r == Err::<(), IngestError>(e) && *final(msg_vec) == *old(msg_vec) && *final(users)
                == *old(users),
            None => {
                let t = privmsg_fields(msg@.tags->Some_0);
                &&& r is Ok
                &&& final(msg_vec)@.len() == old(msg_vec)@.len() + 1
                &&& final(msg_vec)@.drop_last() == old(msg_vec)@
                &&& final(msg_vec)@.last().is_record_of(msg@, t, now_ms as int)
                &&& if user_listed(old(users)@, final(msg_vec)@.last().user_id) {
                    *final(users) == *old(users)
                } else {
                    &&& final(users)@.len() == old(users)@.len() + 1
                    &&& final(users)@.drop_last() == old(users)@
                    &&& final(users)@.last().id as int == t.user_id
                    &&& final(users)@.last().nick@ == msg@.nick
                    &&& final(users)@.last().display_name@ == t.display_name
                    &&& final(users)@.last().updated_at_ms == now_ms
                }
            },
        },
        user_ids_unique(old(users)@) ==> user_ids_unique(final(users)@),
{
    let message = match &msg.params {
        Some(x) => x.clone(),
        None => return Err(IngestError::NoMessage),
    };
    let tags = match &msg.tags {
        Some(t) => match crate::privmsg_tag::parse(t) {
            Ok(x) => x,
            Err(e) => return Err(IngestError::Tags(e)),
        },
        None => return Err(IngestError::NoTags),
    };
    if msg.command.params.len() == 0 {
        return Err(IngestError::NoChannel);
    }
    let channel_name = channel_name(&msg.command.params[0]);
    let nick = msg.source.nick.clone();
    let timestamp_ms = match parse_i64(tags.tmi_sent_ts.as_str()) {
        Some(ms) => event_time_ms(ms, now_ms),
        None => now_ms,
    };
    proof {
        reveal_strlit(",");
    }
    let badges = join_strings(&tags.badges, ",");
    if !has_user(users, tags.user_id) {
        let ghost old_users = users@;
        users.push(
            UserRecord {
                id: tags.user_id,
                nick: nick.clone(),
                display_name: tags.display_name.clone(),
                updated_at_ms: now_ms,
            },
        );
        assert(users@.drop_last() =~= old_users);
    }
    let ghost old_msgs = msg_vec@;
    msg_vec.push(
        ChatMessageRecord {
            msg_id: tags.id,
            channel_id: tags.room_id,
            channel_name,
            nick,
            display_name: tags.display_name,
            user_id: tags.user_id,
            badge_info: tags.badge_info,
            badges: Some(badges),
            bits: tags.bits,
            color: tags.color,
            moderator: tags.moderator,
            reply_msg_id: tags.reply_parent_msg_id,
            reply_msg_nick: tags.reply_parent_user_nick,
            reply_msg_display_name: tags.reply_parent_user_display_name,
            reply_msg_body: tags.reply_parent_body,
            subscriber: tags.subscriber,
            timestamp_ms,
            turbo: tags.turbo,
            user_type: tags.user_type,
            vip: tags.vip,
            admin: tags.admin,
            body: message,
            emotes: tags.emotes,
            deleted: false,
            deleted_timestamp_ms: None,
            created_at_ms: now_ms,
            updated_at_ms: now_ms,
        },
    );
    assert(msg_vec@.drop_last() =~= old_msgs);
    Ok(())
}

/// Index of the first record from `i` on whose id is `id`.
pub open spec fn first_with_id(buf: Seq<ChatMessageRecord>, id: Seq<char>, i: int) -> Option<int>
    decreases buf.len() - i,
{
    if i < 0 || i >= buf.len() {
        None
    } else if buf[i].msg_id@ == id {
        Some(i)
    } else {
        first_with_id(buf, id, i + 1)
    }
}

/// The pending buffer after a deletion of `id` at `now`: the first record with
/// that id is marked, nothing else changes.
pub open spec fn clear_pending(buf: Seq<ChatMessageRecord>, id: Seq<char>, now: i64) -> Seq<ChatMessageRecord> {
    match first_with_id(buf, id, 0) {
        Some(i) => buf.update(i, marked_deleted(buf[i], now)),
        None => buf,
    }
}

/// Why a deletion line is refused, if it is.
pub open spec fn clearmsg_rejection(m: MessageView) -> Option<IngestError> {
    if m.tags is None {
        Some(IngestError::NoTags)
    } else if clearmsg_error(m.tags->Some_0) is Some {
        Some(IngestError::Tags(clearmsg_error(m.tags->Some_0)->Some_0))
    } else {
        None
    }
}

/// Soft-deletes `record` at `now_ms`.
pub fn mark_deleted(record: &mut ChatMessageRecord, now_ms: i64)
    ensures
        *final(record) == marked_deleted(*old(record), now_ms),
{
    record.deleted = true;
    record.deleted_timestamp_ms = Some(now_ms);
    record.updated_at_ms = now_ms;
}

/// Index of the first pending record whose id is `id`.
fn find_pending(buf: &Vec<ChatMessageRecord>, id: &String) -> (r: Option<usize>)
    ensures
        match r {
            Some(i) => first_with_id(buf@, id@, 0) == Some(i as int) && i < buf@.len(),
            None => first_with_id(buf@, id@, 0) is None,
        },
{
    let mut i: usize = 0;
    while i < buf.len()
        invariant
            i <= buf@.len(),
            first_with_id(buf@, id@, i as int) == first_with_id(buf@, id@, 0),
        decreases buf.len() - i,
    {
        if buf[i].msg_id == *id {
            return Some(i);
        }
        i = i + 1;
    }
    None
}

/// Takes a deletion line: a pending target is marked in the buffer; a target
/// that is not pending is handed back, to be marked in the durable store.
pub fn handle_clearmsg_update(
    msg: &ParsedMessage,
    msg_vec: &mut Vec<ChatMessageRecord>,
    now_ms: i64,
) -> (r: Result<ClearOutcome, IngestError>)
    ensures
        match clearmsg_rejection(msg@) {
            Some(e) => r is Err && r->Err_0 == e && *final(msg_vec) == *old(msg_vec),
            None => {
                let target = msg@.tags->Some_0["target-msg-id"@];
                &&& final(msg_vec)@ == clear_pending(old(msg_vec)@, target, now_ms)
                &&& match first_with_id(old(msg_vec)@, target, 0) {
                    Some(_) => r matches Ok(ClearOutcome::MarkedPending),
                    None => (r matches Ok(ClearOutcome::NotPending { target_msg_id }) && target_msg_id@
                        == target),
                }
            },
        },
{
    let tags = match &msg.tags {
        Some(t) => match crate::clearmsg_tag::parse(t) {
            Ok(x) => x,
            Err(e) => return Err(IngestError::Tags(e)),
        },
        None => return Err(IngestError::NoTags),
    };
    match find_pending(msg_vec, &tags.target_msg_id) {
        Some(i) => {
            mark_deleted(&mut msg_vec[i], now_ms);
            Ok(ClearOutcome::MarkedPending)
        },
        None => Ok(ClearOutcome::NotPending { target_msg_id: tags.target_msg_id }),
    }
}

/// Marks a stored row deleted at `now_ms`; a missing row is reported.
pub fn clear_stored(row: Option<ChatMessageRecord>, now_ms: i64) -> (r: Result<
    ChatMessageRecord,
    IngestError,
>)
    ensures
        match row {
            Some(x) => r == Ok::<ChatMessageRecord, IngestError>(marked_deleted(x, now_ms)),
            None => r == Err::<ChatMessageRecord, IngestError>(IngestError::TargetNotFound),
        },
{
    match row {
        Some(mut x) => {
            mark_deleted(&mut x, now_ms);
            Ok(x)
        },
        None => Err(IngestError::TargetNotFound),
    }
}

/// Empties both buffers; their contents form the batch to commit when some
/// message is pending (pending users alone are dropped).
pub fn take_batch(msg_vec: &mut Vec<ChatMessageRecord>, users: &mut Vec<UserRecord>) -> (r: Option<
    Batch,
>)
    ensures
        final(msg_vec)@.len() == 0,
        final(users)@.len() == 0,
        old(msg_vec)@.len() == 0 ==> r is None,
        old(msg_vec)@.len() > 0 ==> (r matches Some(b) && b.messages == *old(msg_vec) && b.users
            == *old(users)),
{
    let mut messages: Vec<ChatMessageRecord> = Vec::new();
    let mut taken_users: Vec<UserRecord> = Vec::new();
    std::mem::swap(msg_vec, &mut messages);
    std::mem::swap(users, &mut taken_users);
    if messages.len() == 0 {
        None
    } else {
        Some(Batch { messages, users: taken_users })
    }
}

/// One step on the pending message buffer, as the handlers and the flush
/// perform it under the buffer's lock.
pub enum BufferEvent {
    /// A chat message is appended.
    Append(ChatMessageRecord),
    /// A deletion of the given id arrives at the given time.
    Clear(Seq<char>, i64),
    /// The flush takes the buffer.
    Drain,
}

/// Pending buffer and flushed batches after `events`, from an empty buffer.
pub open spec fn replay(events: Seq<BufferEvent>) -> (Seq<ChatMessageRecord>, Seq<Seq<ChatMessageRecord>>)
    decreases events.len(),
{
    if events.len() == 0 {
        (Seq::empty(), Seq::empty())
    } else {
        let (buf, batches) = replay(events.drop_last());
        match events.last() {
            BufferEvent::Append(r) => (buf.push(r), batches),
            BufferEvent::Clear(id, now) => (clear_pending(buf, id, now), batches),
            BufferEvent::Drain => (
                Seq::empty(),
                if buf.len() > 0 {
                    batches.push(buf)
                } else {
                    batches
                },
            ),
        }
    }
}

/// Ids of the records in `s`, in order.
pub open spec fn record_ids(s: Seq<ChatMessageRecord>) -> Seq<Seq<char>> {
    s.map_values(|r: ChatMessageRecord| r.msg_id@)
}

/// Ids of the records appended by `events`, in order.
pub open spec fn appended_ids(events: Seq<BufferEvent>) -> Seq<Seq<char>>
    decreases events.len(),
{
    if events.len() == 0 {
        Seq::empty()
    } else {
        match events.last() {
            BufferEvent::Append(r) => appended_ids(events.drop_last()).push(r.msg_id@),
            _ => appended_ids(events.drop_last()),
        }
    }
}

/// Ids of the records of all `batches`, batch after batch.
pub open spec fn batch_ids(batches: Seq<Seq<ChatMessageRecord>>) -> Seq<Seq<char>>
    decreases batches.len(),
{
    if batches.len() == 0 {
        Seq::empty()
    } else {
        batch_ids(batches.drop_last()) + record_ids(batches.last())
    }
}

/// Number of records over all `batches`.
pub open spec fn flushed_count(batches: Seq<Seq<ChatMessageRecord>>) -> nat
    decreases batches.len(),
{
    if batches.len() == 0 {
        0
    } else {
        flushed_count(batches.drop_last()) + batches.last().len()
    }
}

proof fn lemma_first_with_id_bounds(buf: Seq<ChatMessageRecord>, id: Seq<char>, i: int)
    ensures
        first_with_id(buf, id, i) matches Some(j) ==> i <= j < buf.len() && buf[j].msg_id@ == id,
    decreases buf.len() - i,
{
    if 0 <= i < buf.len() && buf[i].msg_id@ != id {
        lemma_first_with_id_bounds(buf, id, i + 1);
    }
}

proof fn lemma_clear_keeps_ids(buf: Seq<ChatMessageRecord>, id: Seq<char>, now: i64)
    ensures
        record_ids(clear_pending(buf, id, now)) == record_ids(buf),
{
    lemma_first_with_id_bounds(buf, id, 0);
    assert(record_ids(clear_pending(buf, id, now)) =~= record_ids(buf));
}

proof fn lemma_batch_ids_len(batches: Seq<Seq<ChatMessageRecord>>)
    ensures
        batch_ids(batches).len() == flushed_count(batches),
    decreases batches.len(),
{
    if batches.len() > 0 {
        lemma_batch_ids_len(batches.drop_last());
    }
}

/// Handing the buffer over to the flush loses and duplicates nothing: the
/// messages ever appended are, in order, those of all flushed batches
/// followed by those still pending, and so their count is the flushed count
/// plus the pending count.
pub proof fn buffer_hand_off_keeps_every_message(events: Seq<BufferEvent>)
    ensures
        appended_ids(events) == batch_ids(replay(events).1) + record_ids(replay(events).0),
        appended_ids(events).len() == flushed_count(replay(events).1) + replay(events).0.len(),
    decreases events.len(),
{
    if events.len() > 0 {
        let pre = events.drop_last();
        buffer_hand_off_keeps_every_message(pre);
        let (buf, batches) = replay(pre);
        match events.last() {
            BufferEvent::Append(r) => {
                assert(record_ids(buf.push(r)) =~= record_ids(buf).push(r.msg_id@));
                assert(appended_ids(events) =~= batch_ids(replay(events).1) + record_ids(replay(events).0));
            },
            BufferEvent::Clear(id, now) => {
                lemma_clear_keeps_ids(buf, id, now);
            },
            BufferEvent::Drain => {
                assert(record_ids(Seq::<ChatMessageRecord>::empty()) =~= Seq::<Seq<char>>::empty());
                if buf.len() > 0 {
                    assert(batches.push(buf).drop_last() =~= batches);
                }
                assert(appended_ids(events) =~= batch_ids(replay(events).1) + record_ids(replay(events).0));
            },
        }
    }
    lemma_batch_ids_len(replay(events).1);
    assert(record_ids(replay(events).0).len() == replay(events).0.len());
}

/// The durable store after committing `batch`: each record under its id.
pub open spec fn commit(store: Map<Seq<char>, ChatMessageRecord>, batch: Seq<ChatMessageRecord>) -> Map<
    Seq<char>,
    ChatMessageRecord,
>
    decreases batch.len(),
{
    if batch.len() == 0 {
        store
    } else {
        commit(store, batch.drop_last()).insert(batch.last().msg_id@, batch.last())
    }
}

/// The durable store after the fallback path of a deletion of `id` at `now`:
/// the row read back, given to `clear_stored`, and written back on success.
pub open spec fn store_clear(store: Map<Seq<char>, ChatMessageRecord>, id: Seq<char>, now: i64) -> Map<
    Seq<char>,
    ChatMessageRecord,
> {
    if store.contains_key(id) {
        store.insert(id, marked_deleted(store[id], now))
    } else {
        store
    }
}

proof fn lemma_commit_holds(store: Map<Seq<char>, ChatMessageRecord>, batch: Seq<ChatMessageRecord>, k: int)
    requires
        0 <= k < batch.len(),
    ensures
        commit(store, batch).contains_key(batch[k].msg_id@),
    decreases batch.len(),
{
    if k < batch.len() - 1 {
        lemma_commit_holds(store, batch.drop_last(), k);
    }
}

/// A deletion that arrives once its message was flushed finds nothing pending,
/// and marks the one stored row of that id deleted; delivering it a second
/// time adds no row and leaves it deleted. No other row changes.
pub proof fn deletion_after_flush_is_idempotent(
    store: Map<Seq<char>, ChatMessageRecord>,
    batch: Seq<ChatMessageRecord>,
    k: int,
    now1: i64,
    now2: i64,
)
    requires
        0 <= k < batch.len(),
    ensures
        ({
            let id = batch[k].msg_id@;
            let flushed = commit(store, batch);
            let once = store_clear(flushed, id, now1);
            let twice = store_clear(once, id, now2);
            &&& clear_pending(Seq::empty(), id, now1) == Seq::<ChatMessageRecord>::empty()
            &&& once.dom() == flushed.dom()
            &&& twice.dom() == flushed.dom()
            &&& once[id].deleted && twice[id].deleted
            &&& once[id].msg_id == flushed[id].msg_id && twice[id].msg_id == flushed[id].msg_id
            &&& forall|other: Seq<char>| other != id && flushed.contains_key(other) ==> once[other]
                == flushed[other] && twice[other] == flushed[other]
        }),
{
    let id = batch[k].msg_id@;
    let flushed = commit(store, batch);
    lemma_commit_holds(store, batch, k);
    let once = store_clear(flushed, id, now1);
    let twice = store_clear(once, id, now2);
    assert(once.dom() =~= flushed.dom());
    assert(twice.dom() =~= flushed.dom());
}

} // verus!
