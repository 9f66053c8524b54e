//! The typed tags of a message deletion (CLEARMSG).

use vstd::prelude::*;
use crate::decode::{DecodeError, TagName};
use crate::number::{decimal_within, parse_i64};
use crate::tags::Tags;

verus! {

/// Deletion tags decoded from the raw mapping.
pub struct ClearMsgTags {
    pub login: String,
    pub room_id: Option<i64>,
    pub target_msg_id: String,
    pub tmi_sent_ts: i64,
}

/// A tag value read as a 64-bit integer.
pub open spec fn int64_of(s: Seq<char>) -> Option<int> {
    decimal_within(s, i64::MIN as int, i64::MAX as int)
}

/// The first required tag, in decoding order, that is absent or unusable;
/// an unreadable `room-id` is not an error.
pub open spec fn clearmsg_error(m: Map<Seq<char>, Seq<char>>) -> Option<DecodeError> {
    if !m.contains_key("login"@) {
        Some(DecodeError::Missing(TagName::Login))
    } else if !m.contains_key("room-id"@) {
        Some(DecodeError::Missing(TagName::RoomId))
    } else if !m.contains_key("target-msg-id"@) {
        Some(DecodeError::Missing(TagName::TargetMsgId))
    } else if !m.contains_key("tmi-sent-ts"@) {
        Some(DecodeError::Missing(TagName::TmiSentTs))
    } else if int64_of(m["tmi-sent-ts"@]) is None {
        Some(DecodeError::NotANumber(TagName::TmiSentTs))
    } else {
        None
    }
}

impl ClearMsgTags {
    /// The decoded value matches mapping `m` that `clearmsg_error` accepts.
    pub open spec fn decodes(&self, m: Map<Seq<char>, Seq<char>>) -> bool {
        &&& self.login@ == m["login"@]
        &&& match self.room_id {
            Some(r) => int64_of(m["room-id"@]) == Some(r as int),
            None => int64_of(m["room-id"@]) is None,
        }
        &&& self.target_msg_id@ == m["target-msg-id"@]
        &&& int64_of(m["tmi-sent-ts"@]) == Some(self.tmi_sent_ts as int)
    }
}

/// Decodes the deletion tags.
pub fn parse(tags: &Tags) -> (r: Result<ClearMsgTags, DecodeError>)
    ensures
        match r {
            Ok(t) => clearmsg_error(tags@) is None && t.decodes(tags@),
            Err(e) => clearmsg_error(tags@) == Some(e),
        },
{
    let login = match tags.get("login") {
        Some(x) => x.clone(),
        None => return Err(DecodeError::Missing(TagName::Login)),
    };
    let room_id = match tags.get("room-id") {
        Some(x) => parse_i64(x.as_str()),
        None => return Err(DecodeError::Missing(TagName::RoomId)),
    };
    let target_msg_id = match tags.get("target-msg-id") {
        Some(x) => x.clone(),
        None => return Err(DecodeError::Missing(TagName::TargetMsgId)),
    };
    let tmi_sent_ts = match tags.get("tmi-sent-ts") {
        Some(x) => match parse_i64(x.as_str()) {
            Some(n) => n,
            None => return Err(DecodeError::NotANumber(TagName::TmiSentTs)),
        },
        None => return Err(DecodeError::Missing(TagName::TmiSentTs)),
    };
    Ok(ClearMsgTags { login, room_id, target_msg_id, tmi_sent_ts })
}

} // verus!
