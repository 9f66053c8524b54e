//! What a typed tag decoder reports when a required tag is absent or unusable.

use vstd::prelude::*;

verus! {

/// The required tags of the two decoders.
#[derive(Debug, Clone, Copy, PartialEq, Eq, Structural)]
pub enum TagName {
    Badges,
    Color,
    DisplayName,
    Id,
    Mod,
    RoomId,
    Subscriber,
    TmiSentTs,
    UserId,
    Login,
    TargetMsgId,
}

/// A decode failure of a typed tag set; the line itself still parsed.
#[derive(Debug, Clone, Copy, PartialEq, Eq, Structural)]
pub enum DecodeError {
    /// The tag is absent.
    Missing(TagName),
    /// The tag is present but is no integer of the expected width.
    NotANumber(TagName),
}

} // verus!
