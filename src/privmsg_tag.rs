//! The typed tags of a chat message (PRIVMSG).

use vstd::prelude::*;
use crate::decode::{DecodeError, TagName};
use crate::clearmsg_tag::int64_of;
use crate::number::{decimal_within, parse_i32, parse_i64};
use crate::tags::Tags;
use crate::text::{
    chars_of, contains_text, has_infix, same_text, split_on, split_range, strings_view,
    unescape_range, unescape_spaces,
};

verus! {

/// The platform role of a chat author.
#[derive(Debug, Clone, Copy, PartialEq, Eq, Structural)]
pub enum UserType {
    Globalmod,
    Globaladmin,
    Staff,
    Normal,
}

/// Chat-message tags decoded from the raw mapping.
pub struct PrivMsgTags {
    pub badge_info: Option<String>,
    pub badges: Vec<String>,
    pub admin: bool,
    pub bits: i32,
    pub color: String,
    pub display_name: String,
    pub emotes: Option<String>,
    pub id: String,
    pub moderator: bool,
    pub reply_parent_msg_id: Option<String>,
    pub reply_parent_user_nick: Option<String>,
    pub reply_parent_user_display_name: Option<String>,
    pub reply_parent_body: Option<String>,
    pub room_id: i32,
    pub subscriber: bool,
    pub tmi_sent_ts: String,
    pub turbo: bool,
    pub user_id: i32,
    pub user_type: UserType,
    pub vip: bool,
}

/// The mathematical content of `PrivMsgTags`.
pub struct PrivMsgView {
    pub badge_info: Option<Seq<char>>,
    pub badges: Seq<Seq<char>>,
    pub admin: bool,
    pub bits: int,
    pub color: Seq<char>,
    pub display_name: Seq<char>,
    pub emotes: Option<Seq<char>>,
    pub id: Seq<char>,
    pub moderator: bool,
    pub reply_parent_msg_id: Option<Seq<char>>,
    pub reply_parent_user_nick: Option<Seq<char>>,
    pub reply_parent_user_display_name: Option<Seq<char>>,
    pub reply_parent_body: Option<Seq<char>>,
    pub room_id: int,
    pub subscriber: bool,
    pub tmi_sent_ts: Seq<char>,
    pub turbo: bool,
    pub user_id: int,
    pub user_type: UserType,
    pub vip: bool,
}

pub open spec fn opt_view(o: Option<String>) -> Option<Seq<char>> {
    match o {
        Some(s) => Some(s@),
        None => None,
    }
}

impl PrivMsgTags {
    pub open spec fn view(&self) -> PrivMsgView {
        PrivMsgView {
            badge_info: opt_view(self.badge_info),
            badges: strings_view(self.badges@),
            admin: self.admin,
            bits: self.bits as int,
            color: self.color@,
            display_name: self.display_name@,
            emotes: opt_view(self.emotes),
            id: self.id@,
            moderator: self.moderator,
            reply_parent_msg_id: opt_view(self.reply_parent_msg_id),
            reply_parent_user_nick: opt_view(self.reply_parent_user_nick),
            reply_parent_user_display_name: opt_view(self.reply_parent_user_display_name),
            reply_parent_body: opt_view(self.reply_parent_body),
            room_id: self.room_id as int,
            subscriber: self.subscriber,
            tmi_sent_ts: self.tmi_sent_ts@,
            turbo: self.turbo,
            user_id: self.user_id as int,
            user_type: self.user_type,
            vip: self.vip,
        }
    }
}

/// A tag value read as a 32-bit integer.
pub open spec fn int32_of(s: Seq<char>) -> Option<int> {
    decimal_within(s, i32::MIN as int, i32::MAX as int)
}

/// The value of an optional tag.
pub open spec fn optional(m: Map<Seq<char>, Seq<char>>, key: Seq<char>) -> Option<Seq<char>> {
    if m.contains_key(key) {
        Some(m[key])
    } else {
        None
    }
}

/// The first required tag, in decoding order, that is absent or unusable.
pub open spec fn privmsg_error(m: Map<Seq<char>, Seq<char>>) -> Option<DecodeError> {
    if !m.contains_key("badges"@) {
        Some(DecodeError::Missing(TagName::Badges))
    } else if !m.contains_key("color"@) {
        Some(DecodeError::Missing(TagName::Color))
    } else if !m.contains_key("display-name"@) {
        Some(DecodeError::Missing(TagName::DisplayName))
    } else if !m.contains_key("id"@) {
        Some(DecodeError::Missing(TagName::Id))
    } else if !m.contains_key("mod"@) {
        Some(DecodeError::Missing(TagName::Mod))
    } else if !m.contains_key("room-id"@) {
        Some(DecodeError::Missing(TagName::RoomId))
    } else if int32_of(m["room-id"@]) is None {
        Some(DecodeError::NotANumber(TagName::RoomId))
    } else if !m.contains_key("subscriber"@) {
        Some(DecodeError::Missing(TagName::Subscriber))
    } else if !m.contains_key("tmi-sent-ts"@) {
        Some(DecodeError::Missing(TagName::TmiSentTs))
    } else if int64_of(m["tmi-sent-ts"@]) is None {
        Some(DecodeError::NotANumber(TagName::TmiSentTs))
    } else if !m.contains_key("user-id"@) {
        Some(DecodeError::Missing(TagName::UserId))
    } else if int32_of(m["user-id"@]) is None {
        Some(DecodeError::NotANumber(TagName::UserId))
    } else {
        None
    }
}

/// The role named by a `user-type` value.
pub open spec fn user_type_of(v: Option<Seq<char>>) -> UserType {
    match v {
        Some(t) => if t == "global_mod"@ {
            UserType::Globalmod
        } else if t == "admin"@ {
            UserType::Globaladmin
        } else if t == "staff"@ {
            UserType::Staff
        } else {
            UserType::Normal
        },
        None => UserType::Normal,
    }
}

/// Some badge marks the channel owner.
pub open spec fn has_broadcaster_badge(badges: Seq<Seq<char>>) -> bool {
    exists|i: int| 0 <= i < badges.len() && has_infix(#[trigger] badges[i], "broadcaster/1"@)
}

/// The decoded tags of a mapping that `privmsg_error` accepts.
pub open spec fn privmsg_fields(m: Map<Seq<char>, Seq<char>>) -> PrivMsgView {
    let badges = split_on(m["badges"@], ',');
    PrivMsgView {
        badge_info: optional(m, "badge-info"@),
        badges,
        admin: has_broadcaster_badge(badges),
        bits: match optional(m, "bits"@) {
            Some(b) => match int32_of(b) {
                Some(x) => x,
                None => 0,
            },
            None => 0,
        },
        color: m["color"@],
        display_name: m["display-name"@],
        emotes: optional(m, "emotes"@),
        id: m["id"@],
        moderator: m["mod"@] == "1"@,
        reply_parent_msg_id: optional(m, "reply-parent-msg-id"@),
        reply_parent_user_nick: optional(m, "reply-parent-user-login"@),
        reply_parent_user_display_name: optional(m, "reply-parent-display-name"@),
        reply_parent_body: match optional(m, "reply-parent-msg-body"@) {
            Some(b) => Some(unescape_spaces(b)),
            None => None,
        },
        room_id: int32_of(m["room-id"@])->Some_0,
        subscriber: m["subscriber"@] == "1"@,
        tmi_sent_ts: m["tmi-sent-ts"@],
        turbo: m.contains_key("turbo"@),
        user_id: int32_of(m["user-id"@])->Some_0,
        user_type: user_type_of(optional(m, "user-type"@)),
        vip: m.contains_key("vip"@),
    }
}

/// A tag set without `room-id` never decodes: the decoder reports an error
/// rather than substituting a default.
pub proof fn missing_room_id_never_decodes(m: Map<Seq<char>, Seq<char>>)
    requires
        !m.contains_key("room-id"@),
    ensures
        privmsg_error(m) is Some,
{
}

/// A copy of an optional tag's value.
fn optional_tag(tags: &Tags, key: &str) -> (r: Option<String>)
    ensures
        opt_view(r) == optional(tags@, key@),
{
    match tags.get(key) {
        Some(x) => Some(x.clone()),
        None => None,
    }
}

/// Whether any badge marks the channel owner.
fn any_broadcaster(badges: &Vec<String>) -> (r: bool)
    ensures
        r == has_broadcaster_badge(strings_view(badges@)),
{
    let mut i: usize = 0;
    while i < badges.len()
        invariant
            i <= badges@.len(),
            forall|j: int| 0 <= j < i ==> !has_infix(#[trigger] strings_view(badges@)[j], "broadcaster/1"@),
        decreases badges.len() - i,
    {
        if contains_text(badges[i].as_str(), "broadcaster/1") {
            assert(strings_view(badges@)[i as int] == badges@[i as int]@);
            return true;
        }
        assert(strings_view(badges@)[i as int] == badges@[i as int]@);
        i = i + 1;
    }
    false
}

/// Decodes the chat-message tags; fails on the first required tag, in
/// decoding order, that is absent or not a number where one is needed
/// (`room-id`, `user-id` and `tmi-sent-ts`).
pub fn parse(tags: &Tags) -> (r: Result<PrivMsgTags, DecodeError>)
    ensures
        match r {
            Ok(t) => privmsg_error(tags@) is None && t.view() == privmsg_fields(tags@),
            Err(e) => privmsg_error(tags@) == Some(e),
        },
{
    let badge_info = optional_tag(tags, "badge-info");
    let badges = match tags.get("badges") {
        Some(x) => {
            let v = chars_of(x.as_str());
            let b = split_range(&v, 0, v.len(), ',');
            assert(v@.subrange(0, v@.len() as int) =~= x@);
            b
        },
        None => return Err(DecodeError::Missing(TagName::Badges)),
    };
    let admin = any_broadcaster(&badges);
    let bits = match tags.get("bits") {
        Some(x) => match parse_i32(x.as_str()) {
            Some(b) => b,
            None => 0,
        },
        None => 0,
    };
    let color = match tags.get("color") {
        Some(x) => x.clone(),
        None => return Err(DecodeError::Missing(TagName::Color)),
    };
    let display_name = match tags.get("display-name") {
        Some(x) => x.clone(),
        None => return Err(DecodeError::Missing(TagName::DisplayName)),
    };
    let emotes = optional_tag(tags, "emotes");
    let id = match tags.get("id") {
        Some(x) => x.clone(),
        None => return Err(DecodeError::Missing(TagName::Id)),
    };
    let moderator = match tags.get("mod") {
        Some(x) => same_text(x, "1"),
        None => return Err(DecodeError::Missing(TagName::Mod)),
    };
    let reply_parent_msg_id = optional_tag(tags, "reply-parent-msg-id");
    let reply_parent_user_nick = optional_tag(tags, "reply-parent-user-login");
    let reply_parent_user_display_name = optional_tag(tags, "reply-parent-display-name");
    let reply_parent_body = match tags.get("reply-parent-msg-body") {
        Some(x) => {
            let v = chars_of(x.as_str());
            assert(v@.subrange(0, v@.len() as int) =~= x@);
            Some(unescape_range(&v, 0, v.len()))
        },
        None => None,
    };
    let room_id = match tags.get("room-id") {
        Some(x) => match parse_i32(x.as_str()) {
            Some(n) => n,
            None => return Err(DecodeError::NotANumber(TagName::RoomId)),
        },
        None => return Err(DecodeError::Missing(TagName::RoomId)),
    };
    let subscriber = match tags.get("subscriber") {
        Some(x) => same_text(x, "1"),
        None => return Err(DecodeError::Missing(TagName::Subscriber)),
    };
    let tmi_sent_ts = match tags.get("tmi-sent-ts") {
        Some(x) => {
            if parse_i64(x.as_str()).is_none() {
                return Err(DecodeError::NotANumber(TagName::TmiSentTs));
            }
            x.clone()
        },
        None => return Err(DecodeError::Missing(TagName::TmiSentTs)),
    };
    let turbo = tags.get("turbo").is_some();
    let user_type = match tags.get("user-type") {
        Some(x) => if same_text(x, "global_mod") {
            UserType::Globalmod
        } else if same_text(x, "admin") {
            UserType::Globaladmin
        } else if same_text(x, "staff") {
            UserType::Staff
        } else {
            UserType::Normal
        },
        None => UserType::Normal,
    };
    let user_id = match tags.get("user-id") {
        Some(x) => match parse_i32(x.as_str()) {
            Some(n) => n,
            None => return Err(DecodeError::NotANumber(TagName::UserId)),
        },
        None => return Err(DecodeError::Missing(TagName::UserId)),
    };
    let vip = tags.get("vip").is_some();
    let r = PrivMsgTags {
        badge_info,
        badges,
        admin,
        bits,
        color,
        display_name,
        emotes,
        id,
        moderator,
        reply_parent_msg_id,
        reply_parent_user_nick,
        reply_parent_user_display_name,
        reply_parent_body,
        room_id,
        subscriber,
        tmi_sent_ts,
        turbo,
        user_id,
        user_type,
        vip,
    };
    assert(r.view() =~= privmsg_fields(tags@));
    Ok(r)
}

} // verus!
