//! Structured result types returned by the local connector, and the pure
//! projections that build timeline kinds and inbox items.

use vstd::prelude::*;

use crate::codec::{
    decimal, json_member, json_member_str, json_member_string, json_member_text, json_quote, json_string_literal,
    u64_decimal,
};
use crate::discourse::{event_type, Role, RoomPolicy, RoomResponse, RoomState, TypeDef, Visibility};
use crate::identity::AgentId;
use crate::profile::AgentProfile;
use crate::text::{chars_of, clone_opt, opt_view, ends_with, has_prefix, has_suffix, push_str, starts_with, str_eq, string_from_chars};

use super::catalog::TOOL_ROOM_SEND_MESSAGE;

verus! {

pub struct SyncState {
    pub host: String,
    pub room_id: String,
    pub head_seq: u64,
    pub head_hash: String,
    pub synced_seq: u64,
    pub remote_seq: u64,
    pub subscribed: bool,
    pub unread_count: usize,
    pub pending_inbox_count: usize,
}

pub struct AgentProtocolsHost {
    pub host: String,
    pub label: Option<String>,
    pub allowed: bool,
    pub features: Vec<String>,
    pub profile_service: Option<String>,
    pub last_checked_at: Option<i64>,
}

/// `Removed` and `Banned` are produced by accepted `room.member.remove` records.
#[derive(Clone, Copy, Debug, PartialEq, Eq, Structural)]
pub enum RoomMemberStatus {
    Active,
    Left,
    Removed,
    Banned,
    Unknown,
}

pub struct RoomMemberProfile {
    pub name: Option<String>,
    pub description: Option<String>,
    pub avatar_url: Option<String>,
}

pub struct RoomMemberView {
    pub agent_id: AgentId,
    pub role: Role,
    pub status: RoomMemberStatus,
    pub is_creator: bool,
    pub perspective: Option<String>,
    pub joined_seq: Option<u64>,
    pub left_seq: Option<u64>,
    pub last_event_seq: Option<u64>,
    pub profile: Option<RoomMemberProfile>,
    /// Further members as `(name, JSON text)` pairs.
    pub extra: Vec<(String, String)>,
}

pub struct TimelineItem {
    pub room_id: String,
    pub seq: u64,
    pub event_id: String,
    pub event_type: String,
    pub kind: String,
    pub actor: AgentId,
    pub created_at: i64,
    pub received_at: i64,
    pub summary: String,
    pub content_type: Option<String>,
    /// The message content, as JSON text.
    pub content: Option<String>,
    pub mentions: Vec<AgentId>,
    pub references: Vec<String>,
    /// The event payload, as JSON text.
    pub payload: String,
}

#[derive(Clone, Copy, Debug, PartialEq, Eq, Structural)]
pub enum InboxKind {
    RoomMessageNew,
    RoomMention,
    RoomTurnAssigned,
    RoomSteer,
    RoomJoinRequested,
    RoomJoinApproved,
    RoomRoleChanged,
    RoomMemberRemoved,
    RoomStateChanged,
    RoomEventCustom,
}

#[derive(Clone, Copy, Debug, PartialEq, Eq, Structural)]
pub enum InboxPriority {
    Low,
    Normal,
    High,
}

pub struct InboxItem {
    pub id: String,
    pub kind: InboxKind,
    pub priority: InboxPriority,
    pub room_id: Option<String>,
    pub seq: Option<u64>,
    pub event_id: Option<String>,
    pub actor: Option<AgentId>,
    pub created_at: i64,
    pub requires_response: bool,
    pub deadline: Option<i64>,
    pub reason: String,
    pub suggested_tools: Vec<String>,
    /// The message, as JSON text.
    pub message: Option<String>,
}

#[derive(Clone, Copy, Debug, PartialEq, Eq, Structural)]
pub enum HeadMismatchPolicy {
    Hold,
    Reject,
    SendAnyway,
}

impl Default for HeadMismatchPolicy {
    fn default() -> (p: Self)
        ensures
            p == HeadMismatchPolicy::Hold,
    {
        HeadMismatchPolicy::Hold
    }
}

#[derive(Clone, Copy, Debug, PartialEq, Eq, Structural)]
pub enum HeldDraftKind {
    Message,
    Event,
}

#[derive(Clone, Copy, Debug, PartialEq, Eq, Structural)]
pub enum DraftAction {
    Revise,
    SendAsIs,
    StaySilent,
    SendAnyway,
}

pub struct HeldDraft {
    pub id: String,
    pub room_id: String,
    pub kind: HeldDraftKind,
    pub created_at: i64,
    pub base_seq: Option<u64>,
    pub base_hash: Option<String>,
    pub current_sync: SyncState,
    /// The held draft, as JSON text.
    pub draft: String,
    pub reason: String,
    pub options: Vec<DraftAction>,
}

pub struct ActiveTurn {
    pub turn_id: String,
    pub speaker: AgentId,
    pub assigned_seq: u64,
    pub expires_at: Option<i64>,
    pub instruction: Option<String>,
    pub source_event_id: String,
}

pub struct RoomSummary {
    pub room_id: String,
    pub host: String,
    pub topic: Option<String>,
    pub status: RoomState,
    pub visibility: Option<Visibility>,
    pub start_time: Option<i64>,
    pub end_time: Option<i64>,
    pub tags: Vec<String>,
    pub language: Option<String>,
    pub role: Option<Role>,
    pub unread_count: usize,
    pub pending_inbox_count: usize,
}

pub struct RoomStateView {
    pub host: String,
    pub room_id: String,
    pub status: RoomState,
    pub visibility: Option<Visibility>,
    pub topic: Option<String>,
    pub agenda: Option<String>,
    pub guidance: Option<String>,
    pub creator: Option<AgentId>,
    pub created_at: Option<i64>,
    pub start_time: Option<i64>,
    pub end_time: Option<i64>,
    pub tags: Vec<String>,
    pub language: Option<String>,
    pub policy: Option<RoomPolicy>,
    pub types: Vec<TypeDef>,
    pub self_member: Option<RoomMemberView>,
    pub members_count: usize,
    pub active_turn: Option<ActiveTurn>,
    pub unread_count: usize,
    pub pending_inbox_count: usize,
}

/// The timeline kind of an event type: `message` for messages, `room` for
/// room events, `control` for updates, `signal` for other creations, and
/// `event` for the rest.
pub open spec fn timeline_kind_of(event_type: Seq<char>) -> Seq<char> {
    if event_type == event_type::MESSAGE_CREATE@ {
        "message"@
    } else if has_prefix(event_type, "room."@) {
        "room"@
    } else if event_type == "turn.update"@ || has_suffix(event_type, ".update"@) {
        "control"@
    } else if has_suffix(event_type, ".create"@) {
        "signal"@
    } else {
        "event"@
    }
}

pub fn timeline_kind(event_type: &str) -> (kind: String)
    ensures
        kind@ == timeline_kind_of(event_type@),
{
    if str_eq(event_type, event_type::MESSAGE_CREATE) {
        "message".to_owned()
    } else if starts_with(event_type, "room.") {
        "room".to_owned()
    } else if str_eq(event_type, "turn.update") || ends_with(event_type, ".update") {
        "control".to_owned()
    } else if ends_with(event_type, ".create") {
        "signal".to_owned()
    } else {
        "event".to_owned()
    }
}

/// The part of an agent's profile a member view shows: its name,
/// description and avatar.
pub fn profile_to_member_profile(profile: &AgentProfile) -> (member: RoomMemberProfile)
    ensures
        opt_view(member.name) == Some(profile.name@),
        opt_view(member.description) == opt_view(profile.description),
        opt_view(member.avatar_url) == opt_view(profile.avatar_url),
{
    RoomMemberProfile {
        name: Some(profile.name.clone()),
        description: clone_opt(&profile.description),
        avatar_url: clone_opt(&profile.avatar_url),
    }
}

/// The room's topic: as served, else from its `room.create` payload.
pub open spec fn topic_of(room: RoomResponse) -> Option<Seq<char>> {
    match room.topic {
        Some(t) => Some(t@),
        None => match room.envelope {
            Some(envelope) => Some(envelope.event.payload.topic@),
            None => None,
        },
    }
}

pub fn room_topic(room: &RoomResponse) -> (topic: Option<String>)
    ensures
        opt_view(topic) == topic_of(*room),
{
    match &room.topic {
        Some(t) => Some(t.clone()),
        None => match &room.envelope {
            Some(envelope) => Some(envelope.event.payload.topic.clone()),
            None => None,
        },
    }
}

/// The room's guidance: as served, else from its `room.create` payload.
pub open spec fn guidance_of(room: RoomResponse) -> Option<Seq<char>> {
    match room.guidance {
        Some(g) => Some(g@),
        None => match room.envelope {
            Some(envelope) => opt_view(envelope.event.payload.guidance),
            None => None,
        },
    }
}

pub fn room_guidance(room: &RoomResponse) -> (guidance: Option<String>)
    ensures
        opt_view(guidance) == guidance_of(*room),
{
    match &room.guidance {
        Some(g) => Some(g.clone()),
        None => match &room.envelope {
            Some(envelope) => clone_opt(&envelope.event.payload.guidance),
            None => None,
        },
    }
}

/// The room's visibility: as served, else from its `room.create` payload.
pub open spec fn visibility_of(room: RoomResponse) -> Option<Visibility> {
    match room.visibility {
        Some(v) => Some(v),
        None => match room.envelope {
            Some(envelope) => Some(envelope.event.payload.visibility),
            None => None,
        },
    }
}

pub fn room_visibility(room: &RoomResponse) -> (visibility: Option<Visibility>)
    ensures
        visibility == visibility_of(*room),
{
    match room.visibility {
        Some(v) => Some(v),
        None => match &room.envelope {
            Some(envelope) => Some(envelope.event.payload.visibility),
            None => None,
        },
    }
}

/// The room's start time: as served, else from its `room.create` payload.
pub open spec fn start_time_of(room: RoomResponse) -> Option<i64> {
    match room.start_time {
        Some(t) => Some(t),
        None => match room.envelope {
            Some(envelope) => Some(envelope.event.payload.start_time),
            None => None,
        },
    }
}

pub fn room_start_time(room: &RoomResponse) -> (start: Option<i64>)
    ensures
        start == start_time_of(*room),
{
    match room.start_time {
        Some(t) => Some(t),
        None => match &room.envelope {
            Some(envelope) => Some(envelope.event.payload.start_time),
            None => None,
        },
    }
}

/// The room's end time: as served, else from its `room.create` payload.
pub open spec fn end_time_of(room: RoomResponse) -> Option<i64> {
    match room.end_time {
        Some(t) => Some(t),
        None => match room.envelope {
            Some(envelope) => Some(envelope.event.payload.end_time),
            None => None,
        },
    }
}

pub fn room_end_time(room: &RoomResponse) -> (end: Option<i64>)
    ensures
        end == end_time_of(*room),
{
    match room.end_time {
        Some(t) => Some(t),
        None => match &room.envelope {
            Some(envelope) => Some(envelope.event.payload.end_time),
            None => None,
        },
    }
}

/// The most characters a payload summary keeps.
pub const SUMMARY_CHARS: usize = 160;

/// The first `n` characters of `s`, or all of it when it is shorter.
pub open spec fn first_chars(s: Seq<char>, n: nat) -> Seq<char> {
    if s.len() <= n {
        s
    } else {
        s.take(n as int)
    }
}

/// The first `n` characters of `s`.
pub fn take_chars(s: &str, n: usize) -> (r: String)
    ensures
        r@ == first_chars(s@, n as nat),
{
    let v = chars_of(s);
    if v.len() <= n {
        string_from_chars(v.as_slice())
    } else {
        let r = string_from_chars(v.as_slice().split_at(n).0);
        assert(r@ =~= s@.take(n as int));
        r
    }
}

/// The first of `instruction`, `intent` and `reason` that the payload has as
/// a member, whatever its JSON type.
pub open spec fn summary_member(payload: Seq<char>) -> Option<Seq<char>> {
    if json_member(payload, "instruction"@) is Some {
        Some("instruction"@)
    } else if json_member(payload, "intent"@) is Some {
        Some("intent"@)
    } else if json_member(payload, "reason"@) is Some {
        Some("reason"@)
    } else {
        None
    }
}

/// The one-line summary of a record: for a message with content, its first
/// characters (the text of a string, else the JSON text); otherwise the
/// first characters of the payload's `instruction`, `intent` or `reason`
/// (the first present) when that member is a string, else the event type.
pub open spec fn payload_summary(event_type: Seq<char>, payload: Seq<char>) -> Seq<char> {
    if event_type == event_type::MESSAGE_CREATE@ && json_member(payload, "content"@) is Some {
        match json_member_string(payload, "content"@) {
            Some(text) => first_chars(text, SUMMARY_CHARS as nat),
            None => first_chars(json_member(payload, "content"@)->0, SUMMARY_CHARS as nat),
        }
    } else {
        match summary_member(payload) {
            Some(key) => match json_member_string(payload, key) {
                Some(text) => first_chars(text, SUMMARY_CHARS as nat),
                None => event_type,
            },
            None => event_type,
        }
    }
}

/// Summarizes a record's payload (JSON text) for the timeline.
pub fn summarize_payload(event_type: &str, payload: &str) -> (summary: String)
    ensures
        summary@ == payload_summary(event_type@, payload@),
{
    if str_eq(event_type, event_type::MESSAGE_CREATE) {
        if let Some(content) = json_member_text(payload, "content") {
            return match json_member_str(payload, "content") {
                Some(text) => take_chars(text.as_str(), SUMMARY_CHARS),
                None => take_chars(content.as_str(), SUMMARY_CHARS),
            };
        }
    }
    let key = if json_member_text(payload, "instruction").is_some() {
        "instruction"
    } else if json_member_text(payload, "intent").is_some() {
        "intent"
    } else if json_member_text(payload, "reason").is_some() {
        "reason"
    } else {
        return event_type.to_owned();
    };
    match json_member_str(payload, key) {
        Some(text) => take_chars(text.as_str(), SUMMARY_CHARS),
        None => event_type.to_owned(),
    }
}

/// The wire name of an inbox kind.
pub open spec fn inbox_kind_name(kind: InboxKind) -> Seq<char> {
    match kind {
        InboxKind::RoomMessageNew => "room.message.new"@,
        InboxKind::RoomMention => "room.mention"@,
        InboxKind::RoomTurnAssigned => "room.turn.assigned"@,
        InboxKind::RoomSteer => "room.steer"@,
        InboxKind::RoomJoinRequested => "room.join.requested"@,
        InboxKind::RoomJoinApproved => "room.join.approved"@,
        InboxKind::RoomRoleChanged => "room.role.changed"@,
        InboxKind::RoomMemberRemoved => "room.member.removed"@,
        InboxKind::RoomStateChanged => "room.state.changed"@,
        InboxKind::RoomEventCustom => "room.event.custom"@,
    }
}

pub fn inbox_kind_str(kind: InboxKind) -> (name: &'static str)
    ensures
        name@ == inbox_kind_name(kind),
{
    match kind {
        InboxKind::RoomMessageNew => "room.message.new",
        InboxKind::RoomMention => "room.mention",
        InboxKind::RoomTurnAssigned => "room.turn.assigned",
        InboxKind::RoomSteer => "room.steer",
        InboxKind::RoomJoinRequested => "room.join.requested",
        InboxKind::RoomJoinApproved => "room.join.approved",
        InboxKind::RoomRoleChanged => "room.role.changed",
        InboxKind::RoomMemberRemoved => "room.member.removed",
        InboxKind::RoomStateChanged => "room.state.changed",
        InboxKind::RoomEventCustom => "room.event.custom",
    }
}

/// The id of an inbox item: `room:kind:seq:event`.
pub open spec fn inbox_id(kind: InboxKind, item: TimelineItem) -> Seq<char> {
    item.room_id@ + ":"@ + inbox_kind_name(kind) + ":"@ + decimal(item.seq as int) + ":"@ + item.event_id@
}

/// The inbox item an accepted timeline item raises.
pub open spec fn inbox_item_of(
    entry: InboxItem,
    kind: InboxKind,
    priority: InboxPriority,
    item: TimelineItem,
    reason: Seq<char>,
    requires_response: bool,
) -> bool {
    &&& entry.id@ == inbox_id(kind, item)
    &&& entry.kind == kind
    &&& entry.priority == priority
    &&& entry.room_id matches Some(r) && r@ == item.room_id@
    &&& entry.seq == Some(item.seq)
    &&& entry.event_id matches Some(e) && e@ == item.event_id@
    &&& entry.actor matches Some(a) && a@ == item.actor@
    &&& entry.created_at == item.received_at
    &&& entry.requires_response == requires_response
    &&& entry.deadline is None
    &&& entry.reason@ == reason
    &&& crate::text::views(entry.suggested_tools@) == if requires_response {
        seq![TOOL_ROOM_SEND_MESSAGE@]
    } else {
        Seq::empty()
    }
    &&& entry.message matches Some(m) && m@ == "{\"summary\":"@ + json_string_literal(item.summary@) + "}"@
}

pub fn inbox_from_item(
    kind: InboxKind,
    priority: InboxPriority,
    item: &TimelineItem,
    reason: &str,
    requires_response: bool,
) -> (entry: InboxItem)
    ensures
        inbox_item_of(entry, kind, priority, *item, reason@, requires_response),
{
    let mut suggested_tools: Vec<String> = Vec::new();
    if requires_response {
        suggested_tools.push(TOOL_ROOM_SEND_MESSAGE.to_owned());
        assert(crate::text::views(suggested_tools@) =~= seq![TOOL_ROOM_SEND_MESSAGE@]);
    } else {
        assert(crate::text::views(suggested_tools@) =~= Seq::<Seq<char>>::empty());
    }
    let mut id = item.room_id.clone();
    push_str(&mut id, ":");
    push_str(&mut id, inbox_kind_str(kind));
    push_str(&mut id, ":");
    let seq = u64_decimal(item.seq);
    push_str(&mut id, seq.as_str());
    push_str(&mut id, ":");
    push_str(&mut id, item.event_id.as_str());
    let mut message = "{\"summary\":".to_owned();
    let summary = json_quote(item.summary.as_str());
    push_str(&mut message, summary.as_str());
    push_str(&mut message, "}");
    InboxItem {
        id,
        kind,
        priority,
        room_id: Some(item.room_id.clone()),
        seq: Some(item.seq),
        event_id: Some(item.event_id.clone()),
        actor: Some(item.actor.clone()),
        created_at: item.received_at,
        requires_response,
        deadline: None,
        reason: reason.to_owned(),
        suggested_tools,
        message: Some(message),
    }
}

} // verus!
