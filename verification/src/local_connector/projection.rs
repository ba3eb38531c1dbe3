//! The projection of an accepted record onto a local room: membership,
//! lifecycle, type registry and turn changes, and the inbox items they raise
//! for the active agent.

use vstd::prelude::*;

use crate::codec::{
    json_member, json_member_i64, json_member_int, json_member_str, json_member_string, json_member_text,
};
use crate::discourse::{
    event_type, JoinDecision, Role, RoleUpdatePayload, RoomJoinPayload, RoomJoinReviewPayload, RoomMemberRemovePayload,
    RoomResponse, RoomState, RoomUpdatePayload, ServerRecord, TypeDeclaration, TypeDef,
};
use crate::error::{Result, SdkError};
use crate::identity::{valid_agent_id, AgentId};
use crate::text::{opt_view, seq_lt, str_eq, str_lt};

use super::state::{find_member, first_member_at, member_position, membership_matches, LocalRoomState, RoomsListMembership};
use super::views::{
    inbox_from_item, inbox_item_of, ActiveTurn, InboxItem, InboxKind, InboxPriority, RoomMemberStatus, RoomMemberView,
    TimelineItem,
};

verus! {

/// The event type of a room update.
pub const ROOM_UPDATE: &'static str = "room.update";

/// The event type of a member removal.
pub const ROOM_MEMBER_REMOVE: &'static str = "room.member.remove";

/// A record's payload as the projection reads it, decoded by the record's
/// event type.
pub enum ProjectionPayload {
    RoomJoin(RoomJoinPayload),
    RoleUpdate(RoleUpdatePayload),
    JoinReview(RoomJoinReviewPayload),
    RoomUpdate(RoomUpdatePayload),
    MemberRemove(RoomMemberRemovePayload),
    TypeDeclaration(TypeDeclaration),
    /// The payload did not decode as its event type's payload; the decoder's message.
    Malformed(String),
    /// An event type whose payload the projection reads as JSON text, if at all.
    Raw,
}

/// The payload is one that the event type `kind` decodes to.
pub open spec fn payload_fits(kind: Seq<char>, payload: ProjectionPayload) -> bool {
    if kind == event_type::ROOM_JOIN@ {
        payload is RoomJoin || payload is Malformed
    } else if kind == event_type::ROOM_MEMBER_ROLE_UPDATE@ {
        payload is RoleUpdate || payload is Malformed
    } else if kind == event_type::TYPE_DEFINE@ {
        payload is TypeDeclaration || payload is Malformed
    } else if kind == event_type::ROOM_JOIN_REVIEW@ {
        payload is JoinReview || payload is Malformed
    } else if kind == ROOM_UPDATE@ {
        payload is RoomUpdate || payload is Malformed
    } else if kind == ROOM_MEMBER_REMOVE@ {
        payload is MemberRemove || payload is Malformed
    } else {
        payload is Raw
    }
}

/// The event types whose payload must decode for the record to project.
pub open spec fn payload_required(kind: Seq<char>) -> bool {
    ||| kind == event_type::ROOM_JOIN@
    ||| kind == event_type::ROOM_MEMBER_ROLE_UPDATE@
    ||| kind == event_type::ROOM_JOIN_REVIEW@
    ||| kind == ROOM_UPDATE@
    ||| kind == ROOM_MEMBER_REMOVE@
}

/// The event types the projection reads, apart from those whose payload
/// must decode, are none of those.
proof fn lemma_required_kinds()
    ensures
        !payload_required(event_type::ROOM_LEAVE@),
        !payload_required(event_type::ROOM_CLOSE@),
        !payload_required(event_type::ROOM_CANCEL@),
        !payload_required(event_type::TYPE_DEFINE@),
        !payload_required(event_type::MESSAGE_CREATE@),
        !payload_required("turn.update"@),
        !payload_required("steer.create"@),
{
    event_type::lemma_event_type_texts();
    reveal_strlit("room.join");
    reveal_strlit("room.join.review");
    reveal_strlit("room.member.role.update");
    reveal_strlit("room.leave");
    reveal_strlit("room.close");
    reveal_strlit("room.cancel");
    reveal_strlit("type.define");
    reveal_strlit("message.create");
    reveal_strlit("turn.update");
    reveal_strlit("steer.create");
    reveal_strlit("room.update");
    reveal_strlit("room.member.remove");
    assert(ROOM_UPDATE@.len() == 11);
    assert(ROOM_MEMBER_REMOVE@.len() == 18);
    assert(event_type::ROOM_CANCEL@[5] != ROOM_UPDATE@[5]);
    assert(event_type::TYPE_DEFINE@[0] != ROOM_UPDATE@[0]);
    assert("turn.update"@[0] != ROOM_UPDATE@[0]);
    assert(event_type::ROOM_JOIN@.len() == 9);
    assert(event_type::ROOM_JOIN_REVIEW@.len() == 16);
    assert(event_type::ROOM_MEMBER_ROLE_UPDATE@.len() == 23);
    assert(event_type::ROOM_LEAVE@.len() == 10);
    assert(event_type::ROOM_CLOSE@.len() == 10);
    assert(event_type::ROOM_CANCEL@.len() == 11);
    assert(event_type::TYPE_DEFINE@.len() == 11);
    assert(event_type::MESSAGE_CREATE@.len() == 14);
    assert("turn.update"@.len() == 11);
    assert("steer.create"@.len() == 12);
}

/// The view a `room.join` record gives its actor.
pub open spec fn joined_view(v: RoomMemberView, agent: Seq<char>, role: Role, seq: u64) -> bool {
    &&& v.agent_id@ == agent
    &&& v.role == role
    &&& v.status == RoomMemberStatus::Active
    &&& !v.is_creator
    &&& v.perspective is None
    &&& v.joined_seq == Some(seq)
    &&& v.left_seq is None
    &&& v.last_event_seq == Some(seq)
    &&& v.profile is None
    &&& v.extra@.len() == 0
}

/// `k` is where a view for `agent` goes in id order: after every view whose
/// id sorts before `agent`, before the first that does not.
pub open spec fn insertion_point(members: Seq<RoomMemberView>, agent: Seq<char>, k: int) -> bool {
    &&& 0 <= k <= members.len()
    &&& forall|j: int| 0 <= j < k ==> seq_lt(#[trigger] members[j].agent_id@, agent)
    &&& k < members.len() ==> !seq_lt(members[k].agent_id@, agent)
}

/// `after` is `before` with the view of `agent` replaced by a joined view, or,
/// where `agent` has none, with one inserted in id order.
pub open spec fn member_joined(
    before: Seq<RoomMemberView>,
    after: Seq<RoomMemberView>,
    agent: Seq<char>,
    role: Role,
    seq: u64,
) -> bool {
    match member_position(before, agent) {
        Some(i) => 0 <= i < after.len() && after == before.update(i, after[i]) && joined_view(after[i], agent, role, seq),
        None => exists|k: int|
            #[trigger] insertion_point(before, agent, k) && after.len() == before.len() + 1 && after == before.insert(
                k,
                after[k],
            ) && joined_view(after[k], agent, role, seq),
    }
}

/// Member views in strictly increasing id order.
pub open spec fn members_sorted(members: Seq<RoomMemberView>) -> bool {
    forall|i: int, j: int| 0 <= i < j < members.len() ==> seq_lt(#[trigger] members[i].agent_id@, #[trigger] members[j].agent_id@)
}

/// A member whose join was projected is listed among the rooms it is a member
/// of, and, when it joined as moderator, among those it moderates.
pub proof fn lemma_joined_member_is_listed(
    before: Seq<RoomMemberView>,
    after: Seq<RoomMemberView>,
    agent: Seq<char>,
    role: Role,
    seq: u64,
)
    requires
        member_joined(before, after, agent, role, seq),
    ensures
        membership_matches(after, agent, Some(RoomsListMembership::Member)),
        role == Role::Moderator ==> membership_matches(after, agent, Some(RoomsListMembership::Moderator)),
        !membership_matches(after, agent, Some(RoomsListMembership::Creator)),
{
    let i = match member_position(before, agent) {
        Some(i) => i,
        None => choose|k: int|
            #[trigger] insertion_point(before, agent, k) && after.len() == before.len() + 1 && after == before.insert(
                k,
                after[k],
            ) && joined_view(after[k], agent, role, seq),
    };
    match member_position(before, agent) {
        Some(k) => {
            assert(first_member_at(before, agent, k));
            assert forall|j: int| 0 <= j < k implies after[j].agent_id@ != agent by {
                assert(after[j] == before[j]);
            }
        },
        None => {
            assert forall|j: int| 0 <= j < i implies after[j].agent_id@ != agent by {
                assert(after[j] == before[j]);
                if before[j].agent_id@ == agent {
                    lemma_some_first_member(before, agent, j);
                }
            }
        },
    }
    assert(first_member_at(after, agent, i));
    assert forall|k: int| #[trigger] first_member_at(after, agent, k) implies k == i by {
        if k < i {
            assert(after[k].agent_id@ != agent);
        } else if k > i {
            assert(after[i].agent_id@ != agent);
        }
    }
}

/// A join keeps member views in id order.
proof fn lemma_join_keeps_sorted(
    before: Seq<RoomMemberView>,
    after: Seq<RoomMemberView>,
    agent: Seq<char>,
    role: Role,
    seq: u64,
)
    requires
        members_sorted(before),
        member_joined(before, after, agent, role, seq),
    ensures
        members_sorted(after),
{
    match member_position(before, agent) {
        Some(i) => {
            assert(first_member_at(before, agent, i));
            assert forall|a: int, b: int| 0 <= a < b < after.len() implies seq_lt(
                #[trigger] after[a].agent_id@,
                #[trigger] after[b].agent_id@,
            ) by {
                assert(after[a].agent_id@ == before[a].agent_id@);
                assert(after[b].agent_id@ == before[b].agent_id@);
            }
        },
        None => {
            let k = choose|k: int|
                #[trigger] insertion_point(before, agent, k) && after.len() == before.len() + 1 && after
                    == before.insert(k, after[k]) && joined_view(after[k], agent, role, seq);
            if k < before.len() {
                if before[k].agent_id@ == agent {
                    lemma_some_first_member(before, agent, k);
                }
                crate::text::lemma_lt_total(before[k].agent_id@, agent);
            }
            assert forall|a: int, b: int| 0 <= a < b < after.len() implies seq_lt(
                #[trigger] after[a].agent_id@,
                #[trigger] after[b].agent_id@,
            ) by {
                if b == k {
                    assert(after[a] == before[a]);
                } else if a == k {
                    assert(after[b] == before[b - 1]);
                    if b - 1 > k {
                        crate::text::lemma_lt_transitive(agent, before[k].agent_id@, before[b - 1].agent_id@);
                    }
                } else if b < k {
                    assert(after[a] == before[a] && after[b] == before[b]);
                } else if a < k {
                    assert(after[a] == before[a] && after[b] == before[b - 1]);
                } else {
                    assert(after[a] == before[a - 1] && after[b] == before[b - 1]);
                }
            }
        },
    }
}

/// A removal keeps member views in id order.
proof fn lemma_remove_keeps_sorted(
    before: Seq<RoomMemberView>,
    after: Seq<RoomMemberView>,
    agent: Seq<char>,
    status: RoomMemberStatus,
    seq: u64,
)
    requires
        members_sorted(before),
        member_removed(before, after, agent, status, seq),
    ensures
        members_sorted(after),
{
    match member_position(before, agent) {
        Some(i) => {
            assert forall|a: int, b: int| 0 <= a < b < after.len() implies seq_lt(
                #[trigger] after[a].agent_id@,
                #[trigger] after[b].agent_id@,
            ) by {
                assert(after[a].agent_id@ == before[a].agent_id@);
                assert(after[b].agent_id@ == before[b].agent_id@);
            }
        },
        None => {
            let k = choose|k: int|
                #[trigger] insertion_point(before, agent, k) && after.len() == before.len() + 1 && after
                    == before.insert(k, after[k]) && fresh_removed_view(after[k], agent, status, seq);
            if k < before.len() {
                if before[k].agent_id@ == agent {
                    lemma_some_first_member(before, agent, k);
                }
                crate::text::lemma_lt_total(before[k].agent_id@, agent);
            }
            assert forall|a: int, b: int| 0 <= a < b < after.len() implies seq_lt(
                #[trigger] after[a].agent_id@,
                #[trigger] after[b].agent_id@,
            ) by {
                if b == k {
                    assert(after[a] == before[a]);
                } else if a == k {
                    assert(after[b] == before[b - 1]);
                    if b - 1 > k {
                        crate::text::lemma_lt_transitive(agent, before[k].agent_id@, before[b - 1].agent_id@);
                    }
                } else if b < k {
                    assert(after[a] == before[a] && after[b] == before[b]);
                } else if a < k {
                    assert(after[a] == before[a] && after[b] == before[b - 1]);
                } else {
                    assert(after[a] == before[a - 1] && after[b] == before[b - 1]);
                }
            }
        },
    }
}

/// Projecting a record keeps member views in id order, as a map keyed by
/// agent id lists them.
pub proof fn lemma_projection_keeps_members_sorted(
    before: LocalRoomState,
    after: LocalRoomState,
    inbox_before: Seq<InboxItem>,
    inbox_after: Seq<InboxItem>,
    record: ServerRecord<String>,
    payload: ProjectionPayload,
    item: TimelineItem,
    agent: Seq<char>,
)
    requires
        members_sorted(before.members@),
        projection_applied(before, after, inbox_before, inbox_after, record, payload, item, agent),
    ensures
        members_sorted(after.members@),
{
    let kind = record.envelope.event.kind@;
    if kind == event_type::ROOM_JOIN@ {
        let p = payload->RoomJoin_0;
        lemma_join_keeps_sorted(before.members@, after.members@, record.envelope.event.actor@, p.role, record.seq);
    } else if kind == ROOM_MEMBER_REMOVE@ && !(kind == event_type::ROOM_LEAVE@ || kind == event_type::ROOM_MEMBER_ROLE_UPDATE@
        || kind == event_type::ROOM_CLOSE@ || kind == event_type::ROOM_CANCEL@ || kind == event_type::TYPE_DEFINE@
        || kind == event_type::ROOM_JOIN_REVIEW@ || kind == ROOM_UPDATE@) {
        let p = payload->MemberRemove_0;
        lemma_remove_keeps_sorted(before.members@, after.members@, p.member@, removal_status(p), record.seq);
    } else if kind == event_type::ROOM_LEAVE@ || kind == event_type::ROOM_MEMBER_ROLE_UPDATE@ {
        assert forall|a: int, b: int| 0 <= a < b < after.members@.len() implies seq_lt(
            #[trigger] after.members@[a].agent_id@,
            #[trigger] after.members@[b].agent_id@,
        ) by {
            assert(after.members@[a].agent_id == before.members@[a].agent_id);
            assert(after.members@[b].agent_id == before.members@[b].agent_id);
        }
    }
}

/// Where `agent` has a view, it has a first one.
proof fn lemma_some_first_member(members: Seq<RoomMemberView>, agent: Seq<char>, j: int)
    requires
        0 <= j < members.len(),
        members[j].agent_id@ == agent,
    ensures
        exists|m: int| first_member_at(members, agent, m),
    decreases j,
{
    if forall|k: int| 0 <= k < j ==> members[k].agent_id@ != agent {
        assert(first_member_at(members, agent, j));
    } else {
        let k = choose|k: int| 0 <= k < j && members[k].agent_id@ == agent;
        lemma_some_first_member(members, agent, k);
    }
}

/// A member view after its member left at `seq`.
pub open spec fn left_view(v: RoomMemberView, seq: u64) -> RoomMemberView {
    RoomMemberView { status: RoomMemberStatus::Left, left_seq: Some(seq), last_event_seq: Some(seq), ..v }
}

/// A member view after its role became `role` at `seq`.
pub open spec fn role_view(v: RoomMemberView, role: Role, seq: u64) -> RoomMemberView {
    RoomMemberView { role: role, last_event_seq: Some(seq), ..v }
}

/// `after` is `before` with one inbox item raised for `item`.
pub open spec fn raised(
    before: Seq<InboxItem>,
    after: Seq<InboxItem>,
    kind: InboxKind,
    priority: InboxPriority,
    item: TimelineItem,
    reason: Seq<char>,
    requires_response: bool,
) -> bool {
    &&& after.len() == before.len() + 1
    &&& after.drop_last() == before
    &&& inbox_item_of(after.last(), kind, priority, item, reason, requires_response)
}

/// `types` without the definitions named `name`, in order.
pub open spec fn without_type(types: Seq<TypeDef>, name: Seq<char>) -> Seq<TypeDef>
    decreases types.len(),
{
    if types.len() == 0 {
        types
    } else {
        let rest = without_type(types.drop_last(), name);
        if types.last().name@ == name {
            rest
        } else {
            rest.push(types.last())
        }
    }
}

/// The turn id a `turn.update` payload names: a JSON string member as is,
/// any other member as its JSON text.
pub open spec fn turn_id_in(payload: Seq<char>) -> Option<Seq<char>> {
    match json_member_string(payload, "turn_id"@) {
        Some(id) => Some(id),
        None => json_member(payload, "turn_id"@),
    }
}

/// The instruction of a `turn.update` payload: the first present member of
/// `intent`, `topic` and `reason`, where it is a string.
pub open spec fn instruction_in(payload: Seq<char>) -> Option<Seq<char>> {
    if json_member(payload, "intent"@) is Some {
        json_member_string(payload, "intent"@)
    } else if json_member(payload, "topic"@) is Some {
        json_member_string(payload, "topic"@)
    } else {
        json_member_string(payload, "reason"@)
    }
}

/// The item's payload names a turn: a valid speaker and a turn id.
pub open spec fn names_turn(item: TimelineItem) -> bool {
    &&& json_member_string(item.payload@, "speaker"@) matches Some(s) && valid_agent_id(s)
    &&& turn_id_in(item.payload@) is Some
}

/// `turn` is the turn the item's payload assigns.
pub open spec fn turn_of(item: TimelineItem, turn: ActiveTurn) -> bool {
    &&& json_member_string(item.payload@, "speaker"@) == Some(turn.speaker@)
    &&& valid_agent_id(turn.speaker@)
    &&& turn_id_in(item.payload@) == Some(turn.turn_id@)
    &&& turn.assigned_seq == item.seq
    &&& turn.expires_at == json_member_int(item.payload@, "expires_at"@)
    &&& opt_view(turn.instruction) == instruction_in(item.payload@)
    &&& turn.source_event_id@ == item.event_id@
}

/// A steer reaches `agent` unless its payload names another string target.
pub open spec fn steers(payload: Seq<char>, agent: Seq<char>) -> bool {
    match json_member_string(payload, "target"@) {
        Some(target) => target == agent,
        None => true,
    }
}

/// The item mentions `agent`.
pub open spec fn mentions(item: TimelineItem, agent: Seq<char>) -> bool {
    exists|i: int| 0 <= i < item.mentions@.len() && (#[trigger] item.mentions@[i])@ == agent
}

/// The status a removal leaves: banned for a ban, else removed.
pub open spec fn removal_status(p: RoomMemberRemovePayload) -> RoomMemberStatus {
    if p.ban == Some(true) {
        RoomMemberStatus::Banned
    } else {
        RoomMemberStatus::Removed
    }
}

/// A member view after its member was removed at `seq` with `status`.
pub open spec fn removed_view(v: RoomMemberView, status: RoomMemberStatus, seq: u64) -> RoomMemberView {
    RoomMemberView { status: status, left_seq: Some(seq), last_event_seq: Some(seq), ..v }
}

/// The view a removal gives an agent that had none, as a ban may: an
/// observer that never joined.
pub open spec fn fresh_removed_view(v: RoomMemberView, agent: Seq<char>, status: RoomMemberStatus, seq: u64) -> bool {
    &&& v.agent_id@ == agent
    &&& v.role == Role::Observer
    &&& v.status == status
    &&& !v.is_creator
    &&& v.perspective is None
    &&& v.joined_seq is None
    &&& v.left_seq == Some(seq)
    &&& v.last_event_seq == Some(seq)
    &&& v.profile is None
    &&& v.extra@.len() == 0
}

/// `after` is `before` with the view of `agent` marked removed, or, where
/// `agent` has none, with a removed observer inserted in id order.
pub open spec fn member_removed(
    before: Seq<RoomMemberView>,
    after: Seq<RoomMemberView>,
    agent: Seq<char>,
    status: RoomMemberStatus,
    seq: u64,
) -> bool {
    match member_position(before, agent) {
        Some(i) => after == before.update(i, removed_view(before[i], status, seq)),
        None => exists|k: int|
            #[trigger] insertion_point(before, agent, k) && after.len() == before.len() + 1 && after == before.insert(
                k,
                after[k],
            ) && fresh_removed_view(after[k], agent, status, seq),
    }
}

/// The room after an update accepted at `received_at`: each field present
/// replaces the room's, an empty guidance clears it, and a scheduled room
/// whose new start time has come becomes active.
pub open spec fn room_updated(before: RoomResponse, p: RoomUpdatePayload, received_at: i64) -> RoomResponse {
    RoomResponse {
        topic: match p.topic {
            Some(t) => Some(t),
            None => before.topic,
        },
        guidance: match p.guidance {
            Some(g) => if g@.len() == 0 {
                None
            } else {
                Some(g)
            },
            None => before.guidance,
        },
        policy: match p.policy {
            Some(x) => Some(x),
            None => before.policy,
        },
        start_time: match p.start_time {
            Some(t) => Some(t),
            None => before.start_time,
        },
        status: match p.start_time {
            Some(t) => if before.status == RoomState::Scheduled && t <= received_at {
                RoomState::Active
            } else {
                before.status
            },
            None => before.status,
        },
        end_time: match p.end_time {
            Some(t) => Some(t),
            None => before.end_time,
        },
        ..before
    }
}

/// What projecting `record` (with its decoded `payload` and timeline `item`)
/// does to the room and to the inbox of the agent `agent`.
pub open spec fn projection_applied(
    before: LocalRoomState,
    after: LocalRoomState,
    inbox_before: Seq<InboxItem>,
    inbox_after: Seq<InboxItem>,
    record: ServerRecord<String>,
    payload: ProjectionPayload,
    item: TimelineItem,
    agent: Seq<char>,
) -> bool {
    let event = record.envelope.event;
    let kind = event.kind@;
    let seq = record.seq;
    if kind == event_type::ROOM_JOIN@ {
        &&& payload matches ProjectionPayload::RoomJoin(p) && member_joined(
            before.members@,
            after.members@,
            event.actor@,
            p.role,
            seq,
        )
        &&& after == LocalRoomState { members: after.members, ..before }
        &&& inbox_after == inbox_before
    } else if kind == event_type::ROOM_LEAVE@ {
        &&& after.members@ == match member_position(before.members@, event.actor@) {
            Some(i) => before.members@.update(i, left_view(before.members@[i], seq)),
            None => before.members@,
        }
        &&& after == LocalRoomState { members: after.members, ..before }
        &&& inbox_after == inbox_before
    } else if kind == event_type::ROOM_MEMBER_ROLE_UPDATE@ {
        &&& payload matches ProjectionPayload::RoleUpdate(p) && match member_position(before.members@, p.member@) {
            Some(i) => {
                &&& after.members@ == before.members@.update(i, role_view(before.members@[i], p.role, seq))
                &&& if p.member@ == agent {
                    raised(
                        inbox_before,
                        inbox_after,
                        InboxKind::RoomRoleChanged,
                        InboxPriority::Normal,
                        item,
                        "role_changed"@,
                        false,
                    )
                } else {
                    inbox_after == inbox_before
                }
            },
            None => after.members@ == before.members@ && inbox_after == inbox_before,
        }
        &&& after == LocalRoomState { members: after.members, ..before }
    } else if kind == event_type::ROOM_CLOSE@ {
        &&& after == LocalRoomState { room: RoomResponse { status: RoomState::Ended, ..before.room }, ..before }
        &&& raised(
            inbox_before,
            inbox_after,
            InboxKind::RoomStateChanged,
            InboxPriority::Normal,
            item,
            "room_closed"@,
            false,
        )
    } else if kind == event_type::ROOM_CANCEL@ {
        &&& after == LocalRoomState { room: RoomResponse { status: RoomState::Cancelled, ..before.room }, ..before }
        &&& raised(
            inbox_before,
            inbox_after,
            InboxKind::RoomStateChanged,
            InboxPriority::Normal,
            item,
            "room_cancelled"@,
            false,
        )
    } else if kind == event_type::TYPE_DEFINE@ {
        match payload {
            ProjectionPayload::TypeDeclaration(TypeDeclaration::Def(def)) => {
                &&& after.room.types@ == without_type(before.room.types@, def.name@).push(def)
                &&& after == LocalRoomState { room: RoomResponse { types: after.room.types, ..before.room }, ..before }
                &&& raised(
                    inbox_before,
                    inbox_after,
                    InboxKind::RoomStateChanged,
                    InboxPriority::Normal,
                    item,
                    "type_registry_changed"@,
                    false,
                )
            },
            _ => after == before && inbox_after == inbox_before,
        }
    } else if kind == event_type::ROOM_JOIN_REVIEW@ {
        &&& payload matches ProjectionPayload::JoinReview(p) && if p.request.applicant@ == agent && p.decision
            == JoinDecision::Approve {
            raised(
                inbox_before,
                inbox_after,
                InboxKind::RoomJoinApproved,
                InboxPriority::High,
                item,
                "join_approved"@,
                true,
            )
        } else {
            inbox_after == inbox_before
        }
        &&& after == before
    } else if kind == ROOM_UPDATE@ {
        &&& payload matches ProjectionPayload::RoomUpdate(p) && after == LocalRoomState {
            room: room_updated(before.room, p, record.received_at),
            ..before
        }
        &&& raised(
            inbox_before,
            inbox_after,
            InboxKind::RoomStateChanged,
            InboxPriority::Normal,
            item,
            "room_updated"@,
            false,
        )
    } else if kind == ROOM_MEMBER_REMOVE@ {
        &&& payload matches ProjectionPayload::MemberRemove(p) && member_removed(
            before.members@,
            after.members@,
            p.member@,
            removal_status(p),
            seq,
        ) && if p.member@ == agent {
            raised(
                inbox_before,
                inbox_after,
                InboxKind::RoomMemberRemoved,
                InboxPriority::High,
                item,
                if p.ban == Some(true) {
                    "member_banned"@
                } else {
                    "member_removed"@
                },
                false,
            )
        } else {
            inbox_after == inbox_before
        }
        &&& after == LocalRoomState { members: after.members, ..before }
    } else if kind == event_type::MESSAGE_CREATE@ {
        &&& after == before
        &&& if mentions(item, agent) {
            raised(inbox_before, inbox_after, InboxKind::RoomMention, InboxPriority::High, item, "mentioned"@, true)
        } else if event.actor@ != agent {
            raised(
                inbox_before,
                inbox_after,
                InboxKind::RoomMessageNew,
                InboxPriority::Normal,
                item,
                "new_message"@,
                false,
            )
        } else {
            inbox_after == inbox_before
        }
    } else if kind == "turn.update"@ {
        if names_turn(item) {
            &&& after.active_turn matches Some(t) && turn_of(item, t) && if t.speaker@ == agent {
                raised(
                    inbox_before,
                    inbox_after,
                    InboxKind::RoomTurnAssigned,
                    InboxPriority::High,
                    item,
                    "turn_assigned"@,
                    true,
                )
            } else {
                inbox_after == inbox_before
            }
            &&& after == LocalRoomState { active_turn: after.active_turn, ..before }
        } else {
            after == before && inbox_after == inbox_before
        }
    } else if kind == "steer.create"@ {
        &&& after == before
        &&& if steers(event.payload@, agent) {
            raised(inbox_before, inbox_after, InboxKind::RoomSteer, InboxPriority::High, item, "steer"@, true)
        } else {
            inbox_after == inbox_before
        }
    } else {
        after == before && inbox_after == inbox_before
    }
}

/// Gives `agent` a joined view at `seq`: its first view is replaced, or one
/// is added.
fn join_member(members: &mut Vec<RoomMemberView>, agent: &AgentId, role: Role, seq: u64)
    ensures
        member_joined(old(members)@, final(members)@, agent@, role, seq),
{
    let view = RoomMemberView {
        agent_id: agent.clone(),
        role,
        status: RoomMemberStatus::Active,
        is_creator: false,
        perspective: None,
        joined_seq: Some(seq),
        left_seq: None,
        last_event_seq: Some(seq),
        profile: None,
        extra: Vec::new(),
    };
    match find_member(members, agent) {
        Some(i) => {
            let _ = members.remove(i);
            members.insert(i, view);
            assert(members@ =~= old(members)@.update(i as int, members@[i as int]));
        },
        None => {
            insert_in_order(members, view);
        },
    }
}

/// Inserts a view in id order: after every view whose id sorts before its own.
fn insert_in_order(members: &mut Vec<RoomMemberView>, view: RoomMemberView)
    ensures
        exists|k: int|
            #[trigger] insertion_point(old(members)@, view.agent_id@, k) && final(members)@ == old(members)@.insert(
                k,
                view,
            ),
{
    let mut k: usize = 0;
    while k < members.len() && str_lt(members[k].agent_id.as_str(), view.agent_id.as_str())
        invariant
            k <= members@.len(),
            members@ == old(members)@,
            forall|j: int| 0 <= j < k ==> seq_lt(#[trigger] members@[j].agent_id@, view.agent_id@),
        decreases members@.len() - k,
    {
        k += 1;
    }
    assert(insertion_point(old(members)@, view.agent_id@, k as int));
    let ghost v = view;
    members.insert(k, view);
    assert(members@ =~= old(members)@.insert(k as int, v));
}

/// The view a room's creator gets when the room is first observed.
pub open spec fn creator_view(v: RoomMemberView, agent: Seq<char>) -> bool {
    &&& v.agent_id@ == agent
    &&& v.role == Role::Moderator
    &&& v.status == RoomMemberStatus::Active
    &&& v.is_creator
    &&& v.perspective is None
    &&& v.joined_seq == Some(1u64)
    &&& v.left_seq is None
    &&& v.last_event_seq == Some(1u64)
    &&& v.profile is None
    &&& v.extra@.len() == 0
}

/// The room after its creator is made a member: the actor of the room's
/// `room.create` envelope gets a creator view, in id order, unless it has a
/// view already or the room carries no envelope.
pub open spec fn creator_materialized(before: LocalRoomState, after: LocalRoomState) -> bool {
    match before.room.envelope {
        None => after == before,
        Some(envelope) => {
            let creator = envelope.event.actor@;
            if member_position(before.members@, creator) is Some {
                after == before
            } else {
                &&& after == LocalRoomState { members: after.members, ..before }
                &&& exists|k: int|
                    #[trigger] insertion_point(before.members@, creator, k) && after.members@.len()
                        == before.members@.len() + 1 && after.members@ == before.members@.insert(
                        k,
                        after.members@[k],
                    ) && creator_view(after.members@[k], creator)
            }
        },
    }
}

/// Makes the room's creator a member: the actor of its `room.create`
/// envelope, as moderator, active since the first record.
pub fn materialize_creator(room: &mut LocalRoomState)
    ensures
        creator_materialized(*old(room), *final(room)),
{
    let creator = match &room.room.envelope {
        Some(envelope) => envelope.event.actor.clone(),
        None => {
            return;
        },
    };
    match find_member(&room.members, &creator) {
        Some(_) => {},
        None => {
            let ghost agent = creator@;
            let view = RoomMemberView {
                agent_id: creator,
                role: Role::Moderator,
                status: RoomMemberStatus::Active,
                is_creator: true,
                perspective: None,
                joined_seq: Some(1),
                left_seq: None,
                last_event_seq: Some(1),
                profile: None,
                extra: Vec::new(),
            };
            let ghost v = view;
            insert_in_order(&mut room.members, view);
            proof {
                let k = choose|k: int|
                    #[trigger] insertion_point(old(room).members@, agent, k) && room.members@ == old(
                        room,
                    ).members@.insert(k, v);
                assert(room.members@[k] == v);
            }
        },
    }
}

/// Marks the first view of `agent`, if any, as left at `seq`.
fn leave_member(members: &mut Vec<RoomMemberView>, agent: &AgentId, seq: u64)
    ensures
        final(members)@ == match member_position(old(members)@, agent@) {
            Some(i) => old(members)@.update(i, left_view(old(members)@[i], seq)),
            None => old(members)@,
        },
{
    match find_member(members, agent) {
        Some(i) => {
            let mut view = members.remove(i);
            view.status = RoomMemberStatus::Left;
            view.left_seq = Some(seq);
            view.last_event_seq = Some(seq);
            members.insert(i, view);
            assert(members@ =~= old(members)@.update(i as int, left_view(old(members)@[i as int], seq)));
        },
        None => {},
    }
}

/// Sets the role of the first view of `agent`, if any; tells whether there
/// was one.
fn set_member_role(members: &mut Vec<RoomMemberView>, agent: &AgentId, role: Role, seq: u64) -> (found: bool)
    ensures
        found == member_position(old(members)@, agent@) is Some,
        final(members)@ == match member_position(old(members)@, agent@) {
            Some(i) => old(members)@.update(i, role_view(old(members)@[i], role, seq)),
            None => old(members)@,
        },
{
    match find_member(members, agent) {
        Some(i) => {
            let mut view = members.remove(i);
            view.role = role;
            view.last_event_seq = Some(seq);
            members.insert(i, view);
            assert(members@ =~= old(members)@.update(i as int, role_view(old(members)@[i as int], role, seq)));
            true
        },
        None => false,
    }
}

/// Replaces the definitions named like `def` by `def`, at the end.
fn replace_type(types: &mut Vec<TypeDef>, def: TypeDef)
    ensures
        final(types)@ == without_type(old(types)@, def.name@).push(def),
{
    let mut rest: Vec<TypeDef> = Vec::new();
    std::mem::swap(&mut rest, types);
    let ghost all = rest@;
    assert(all.len() == rest.len());
    assert(without_type(all.take(0), def.name@) =~= types@);
    let mut taken: usize = 0;
    while rest.len() > 0
        invariant
            taken <= all.len(),
            all.len() <= usize::MAX,
            rest@ == all.skip(taken as int),
            types@ == without_type(all.take(taken as int), def.name@),
        decreases rest@.len(),
    {
        assert(taken < all.len());
        let t = rest.remove(0);
        proof {
            assert(all.take(taken + 1).drop_last() =~= all.take(taken as int));
            assert(all.take(taken + 1).last() == t);
            assert(rest@ =~= all.skip(taken + 1));
        }
        if !str_eq(t.name.as_str(), def.name.as_str()) {
            types.push(t);
        }
        taken += 1;
    }
    assert(all.take(taken as int) =~= all);
    types.push(def);
}

/// Marks `agent` removed at `seq` with `status`: its first view, or a new
/// observer view in id order.
fn remove_member(members: &mut Vec<RoomMemberView>, agent: &AgentId, status: RoomMemberStatus, seq: u64)
    ensures
        member_removed(old(members)@, final(members)@, agent@, status, seq),
{
    match find_member(members, agent) {
        Some(i) => {
            let mut view = members.remove(i);
            view.status = status;
            view.left_seq = Some(seq);
            view.last_event_seq = Some(seq);
            members.insert(i, view);
            assert(members@ =~= old(members)@.update(i as int, removed_view(old(members)@[i as int], status, seq)));
        },
        None => {
            let view = RoomMemberView {
                agent_id: agent.clone(),
                role: Role::Observer,
                status,
                is_creator: false,
                perspective: None,
                joined_seq: None,
                left_seq: Some(seq),
                last_event_seq: Some(seq),
                profile: None,
                extra: Vec::new(),
            };
            let ghost v = view;
            insert_in_order(members, view);
            proof {
                let k = choose|k: int|
                    #[trigger] insertion_point(old(members)@, agent@, k) && members@ == old(members)@.insert(k, v);
                assert(members@[k] == v);
            }
        },
    }
}

/// Applies a room update accepted at `received_at` to the room.
fn update_room(room: &mut RoomResponse, p: RoomUpdatePayload, received_at: i64)
    ensures
        *final(room) == room_updated(*old(room), p, received_at),
{
    let ghost spec_p = p;
    let RoomUpdatePayload { topic, guidance, policy, start_time, end_time, .. } = p;
    if let Some(t) = topic {
        room.topic = Some(t);
    }
    if let Some(g) = guidance {
        room.guidance = if crate::text::chars_of(g.as_str()).len() == 0 {
            None
        } else {
            Some(g)
        };
    }
    if let Some(x) = policy {
        room.policy = Some(x);
    }
    if let Some(t) = start_time {
        room.start_time = Some(t);
        if room.status == RoomState::Scheduled && t <= received_at {
            room.status = RoomState::Active;
        }
    }
    if let Some(t) = end_time {
        room.end_time = Some(t);
    }
}

/// Raises the inbox item `item` brings for `kind`.
fn raise(
    inbox: &mut Vec<InboxItem>,
    kind: InboxKind,
    priority: InboxPriority,
    item: &TimelineItem,
    reason: &str,
    requires_response: bool,
)
    ensures
        raised(old(inbox)@, final(inbox)@, kind, priority, *item, reason@, requires_response),
{
    inbox.push(inbox_from_item(kind, priority, item, reason, requires_response));
    assert(inbox@.drop_last() =~= old(inbox)@);
}

/// Whether the item mentions `agent`.
fn mentions_agent(item: &TimelineItem, agent: &AgentId) -> (r: bool)
    ensures
        r == mentions(*item, agent@),
{
    let mut i: usize = 0;
    while i < item.mentions.len()
        invariant
            i <= item.mentions@.len(),
            forall|j: int| 0 <= j < i ==> (#[trigger] item.mentions@[j])@ != agent@,
        decreases item.mentions@.len() - i,
    {
        if item.mentions[i] == *agent {
            return true;
        }
        i += 1;
    }
    false
}

/// The turn a `turn.update` timeline item assigns, if its payload names one.
pub fn active_turn_from_item(item: &TimelineItem) -> (turn: Option<ActiveTurn>)
    ensures
        turn is Some <==> names_turn(*item),
        turn matches Some(t) ==> turn_of(*item, t),
{
    let payload = item.payload.as_str();
    let speaker_text = match json_member_str(payload, "speaker") {
        Some(text) => text,
        None => return None,
    };
    let speaker = match AgentId::parse(speaker_text.as_str()) {
        Ok(id) => id,
        Err(_) => return None,
    };
    let turn_id = match json_member_str(payload, "turn_id") {
        Some(id) => id,
        None => match json_member_text(payload, "turn_id") {
            Some(text) => text,
            None => return None,
        },
    };
    let instruction = if json_member_text(payload, "intent").is_some() {
        json_member_str(payload, "intent")
    } else if json_member_text(payload, "topic").is_some() {
        json_member_str(payload, "topic")
    } else {
        json_member_str(payload, "reason")
    };
    Some(
        ActiveTurn {
            turn_id,
            speaker,
            assigned_seq: item.seq,
            expires_at: json_member_i64(payload, "expires_at"),
            instruction,
            source_event_id: item.event_id.clone(),
        },
    )
}

/// Whether a steer with this payload reaches `active_agent`.
pub fn steer_targets_agent(payload: &str, active_agent: &AgentId) -> (r: bool)
    ensures
        r == steers(payload@, active_agent@),
{
    match json_member_str(payload, "target") {
        Some(target) => str_eq(target.as_str(), active_agent.as_str()),
        None => true,
    }
}

/// Projects an accepted record onto the room and raises the inbox items it
/// brings the active agent. Fails, changing nothing, when a payload the
/// projection needs did not decode.
pub fn apply_record_projection(
    room: &mut LocalRoomState,
    record: &ServerRecord<String>,
    payload: ProjectionPayload,
    item: &TimelineItem,
    active_agent: &AgentId,
    inbox: &mut Vec<InboxItem>,
) -> (r: Result<()>)
    requires
        payload_fits(record.envelope.event.kind@, payload),
    ensures
        r is Err <==> (payload is Malformed && payload_required(record.envelope.event.kind@)),
        match r {
            Ok(()) => projection_applied(
                *old(room),
                *final(room),
                old(inbox)@,
                final(inbox)@,
                *record,
                payload,
                *item,
                active_agent@,
            ),
            Err(e) => {
                &&& payload matches ProjectionPayload::Malformed(message) && e == SdkError::Json(message)
                &&& *final(room) == *old(room)
                &&& final(inbox)@ == old(inbox)@
            },
        },
{
    proof {
        lemma_required_kinds();
    }
    let event = &record.envelope.event;
    let kind = event.kind.as_str();
    let seq = record.seq;
    if str_eq(kind, event_type::ROOM_JOIN) {
        match payload {
            ProjectionPayload::RoomJoin(p) => join_member(&mut room.members, &event.actor, p.role, seq),
            ProjectionPayload::Malformed(message) => return Err(SdkError::Json(message)),
            _ => {},
        }
    } else if str_eq(kind, event_type::ROOM_LEAVE) {
        leave_member(&mut room.members, &event.actor, seq);
    } else if str_eq(kind, event_type::ROOM_MEMBER_ROLE_UPDATE) {
        match payload {
            ProjectionPayload::RoleUpdate(p) => {
                let found = set_member_role(&mut room.members, &p.member, p.role, seq);
                if found && p.member == *active_agent {
                    raise(inbox, InboxKind::RoomRoleChanged, InboxPriority::Normal, item, "role_changed", false);
                }
            },
            ProjectionPayload::Malformed(message) => return Err(SdkError::Json(message)),
            _ => {},
        }
    } else if str_eq(kind, event_type::ROOM_CLOSE) {
        room.room.status = RoomState::Ended;
        raise(inbox, InboxKind::RoomStateChanged, InboxPriority::Normal, item, "room_closed", false);
    } else if str_eq(kind, event_type::ROOM_CANCEL) {
        room.room.status = RoomState::Cancelled;
        raise(inbox, InboxKind::RoomStateChanged, InboxPriority::Normal, item, "room_cancelled", false);
    } else if str_eq(kind, event_type::TYPE_DEFINE) {
        match payload {
            ProjectionPayload::TypeDeclaration(TypeDeclaration::Def(def)) => {
                replace_type(&mut room.room.types, def);
                raise(inbox, InboxKind::RoomStateChanged, InboxPriority::Normal, item, "type_registry_changed", false);
            },
            _ => {},
        }
    } else if str_eq(kind, event_type::ROOM_JOIN_REVIEW) {
        match payload {
            ProjectionPayload::JoinReview(p) => {
                if p.request.applicant == *active_agent && p.decision == JoinDecision::Approve {
                    raise(inbox, InboxKind::RoomJoinApproved, InboxPriority::High, item, "join_approved", true);
                }
            },
            ProjectionPayload::Malformed(message) => return Err(SdkError::Json(message)),
            _ => {},
        }
    } else if str_eq(kind, ROOM_UPDATE) {
        match payload {
            ProjectionPayload::RoomUpdate(p) => {
                update_room(&mut room.room, p, record.received_at);
                raise(inbox, InboxKind::RoomStateChanged, InboxPriority::Normal, item, "room_updated", false);
            },
            ProjectionPayload::Malformed(message) => return Err(SdkError::Json(message)),
            _ => {},
        }
    } else if str_eq(kind, ROOM_MEMBER_REMOVE) {
        match payload {
            ProjectionPayload::MemberRemove(p) => {
                let banning = p.banning();
                let status = if banning {
                    RoomMemberStatus::Banned
                } else {
                    RoomMemberStatus::Removed
                };
                remove_member(&mut room.members, &p.member, status, seq);
                if p.member == *active_agent {
                    let reason = if banning {
                        "member_banned"
                    } else {
                        "member_removed"
                    };
                    raise(inbox, InboxKind::RoomMemberRemoved, InboxPriority::High, item, reason, false);
                }
            },
            ProjectionPayload::Malformed(message) => return Err(SdkError::Json(message)),
            _ => {},
        }
    } else if str_eq(kind, event_type::MESSAGE_CREATE) {
        if mentions_agent(item, active_agent) {
            raise(inbox, InboxKind::RoomMention, InboxPriority::High, item, "mentioned", true);
        } else if !(event.actor == *active_agent) {
            raise(inbox, InboxKind::RoomMessageNew, InboxPriority::Normal, item, "new_message", false);
        }
    } else if str_eq(kind, "turn.update") {
        match active_turn_from_item(item) {
            Some(turn) => {
                let assigned_to_self = turn.speaker == *active_agent;
                room.active_turn = Some(turn);
                if assigned_to_self {
                    raise(inbox, InboxKind::RoomTurnAssigned, InboxPriority::High, item, "turn_assigned", true);
                }
            },
            None => {},
        }
    } else if str_eq(kind, "steer.create") {
        if steer_targets_agent(event.payload.as_str(), active_agent) {
            raise(inbox, InboxKind::RoomSteer, InboxPriority::High, item, "steer", true);
        }
    }
    Ok(())
}

} // verus!
