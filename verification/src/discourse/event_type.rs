//! The nine built-in event types of the discourse protocol.

use vstd::prelude::*;

verus! {

pub const ROOM_CREATE: &'static str = "room.create";

pub const ROOM_JOIN: &'static str = "room.join";

pub const ROOM_JOIN_REVIEW: &'static str = "room.join.review";

pub const ROOM_LEAVE: &'static str = "room.leave";

pub const ROOM_MEMBER_ROLE_UPDATE: &'static str = "room.member.role.update";

pub const ROOM_CLOSE: &'static str = "room.close";

pub const ROOM_CANCEL: &'static str = "room.cancel";

pub const TYPE_DEFINE: &'static str = "type.define";

pub const MESSAGE_CREATE: &'static str = "message.create";

/// The texts of the built-in event types.
pub proof fn lemma_event_type_texts()
    ensures
        ROOM_CREATE@ == "room.create"@,
        ROOM_JOIN@ == "room.join"@,
        ROOM_JOIN_REVIEW@ == "room.join.review"@,
        ROOM_LEAVE@ == "room.leave"@,
        ROOM_MEMBER_ROLE_UPDATE@ == "room.member.role.update"@,
        ROOM_CLOSE@ == "room.close"@,
        ROOM_CANCEL@ == "room.cancel"@,
        TYPE_DEFINE@ == "type.define"@,
        MESSAGE_CREATE@ == "message.create"@,
{
}

} // verus!
