//! The local connector's static catalog: tool and resource names and the
//! standard tool declarations advertised to `tools/list`.

use vstd::prelude::*;

use crate::error::{Result, SdkError};
use crate::text::{push_str, str_eq};

verus! {
pub const TOOL_IDENTITY_CURRENT: &'static str = "agent_protocols_identity_current";
pub const TOOL_HOSTS_LIST: &'static str = "agent_protocols_hosts_list";
pub const TOOL_ROOMS_SEARCH: &'static str = "agent_protocols_rooms_search";
pub const TOOL_ROOMS_LIST: &'static str = "agent_protocols_rooms_list";
pub const TOOL_ROOM_OPEN: &'static str = "agent_protocols_room_open";
pub const TOOL_ROOM_STATE: &'static str = "agent_protocols_room_state";
pub const TOOL_ROOM_MEMBERS_LIST: &'static str = "agent_protocols_room_members_list";
pub const TOOL_ROOM_MEMBER_GET: &'static str = "agent_protocols_room_member_get";
pub const TOOL_AGENT_STATUS_LIST: &'static str = "agent_protocols_agent_status_list";
pub const TOOL_AGENT_STATUS_GET: &'static str = "agent_protocols_agent_status_get";
pub const TOOL_AGENT_STATUS_SET: &'static str = "agent_protocols_agent_status_set";
pub const TOOL_AGENT_STATUS_CLEAR: &'static str = "agent_protocols_agent_status_clear";
pub const TOOL_ROOM_TIMELINE: &'static str = "agent_protocols_room_timeline";
pub const TOOL_ROOM_UNREAD: &'static str = "agent_protocols_room_unread";
pub const TOOL_ROOM_MARK_READ: &'static str = "agent_protocols_room_mark_read";
pub const TOOL_INBOX_NEXT: &'static str = "agent_protocols_inbox_next";
pub const TOOL_INBOX_ACK: &'static str = "agent_protocols_inbox_ack";
pub const TOOL_DRAFTS_LIST: &'static str = "agent_protocols_drafts_list";
pub const TOOL_DRAFT_GET: &'static str = "agent_protocols_draft_get";
pub const TOOL_DRAFT_COMMIT: &'static str = "agent_protocols_draft_commit";
pub const TOOL_DRAFT_DROP: &'static str = "agent_protocols_draft_drop";
pub const TOOL_PROFILE_UPDATE: &'static str = "agent_protocols_profile_update";
pub const TOOL_ROOM_CREATE: &'static str = "agent_protocols_room_create";
pub const TOOL_ROOM_JOIN: &'static str = "agent_protocols_room_join";
pub const TOOL_ROOM_JOIN_REQUEST: &'static str = "agent_protocols_room_join_request";
pub const TOOL_ROOM_JOIN_WHEN_APPROVED: &'static str = "agent_protocols_room_join_when_approved";
pub const TOOL_ROOM_LEAVE: &'static str = "agent_protocols_room_leave";
pub const TOOL_ROOM_SEND_MESSAGE: &'static str = "agent_protocols_room_send_message";
pub const TOOL_ROOM_SUBMIT_EVENT: &'static str = "agent_protocols_room_submit_event";
pub const TOOL_JOIN_REQUESTS_LIST: &'static str = "agent_protocols_join_requests_list";
pub const TOOL_JOIN_REQUEST_REVIEW: &'static str = "agent_protocols_join_request_review";
pub const RESOURCE_IDENTITY_CURRENT: &'static str = "agent-protocols://identity/current";
pub const RESOURCE_HOSTS: &'static str = "agent-protocols://hosts";
pub const RESOURCE_ROOMS: &'static str = "agent-protocols://rooms";
pub const RESOURCE_INBOX_PENDING: &'static str = "agent-protocols://inbox/pending";
pub const RESOURCE_DRAFTS_HELD: &'static str = "agent-protocols://drafts/held";
pub const RESOURCE_ROOM_AGENT_STATUS_SUFFIX: &'static str = "/agent-status";

/// The JSON Schema of both the input and the output of every standard tool.
pub const OBJECT_SCHEMA: &'static str = "{\"type\":\"object\"}";

#[derive(Clone, Copy, Debug, PartialEq, Eq, Structural)]
pub struct LocalConnectorToolAnnotations {
    pub read_only_hint: bool,
    pub idempotent_hint: bool,
    pub destructive_hint: bool,
    pub open_world_hint: bool,
}

pub struct LocalConnectorToolDefinition {
    pub name: String,
    pub description: String,
    /// The input JSON Schema, as JSON text.
    pub input_schema: String,
    /// The output JSON Schema, as JSON text.
    pub output_schema: String,
    pub annotations: LocalConnectorToolAnnotations,
}

/// A declaration as its name, description and read-only, idempotent and
/// open-world hints.
pub open spec fn tool_view(d: LocalConnectorToolDefinition) -> (Seq<char>, Seq<char>, bool, bool, bool) {
    (
        d.name@,
        d.description@,
        d.annotations.read_only_hint,
        d.annotations.idempotent_hint,
        d.annotations.open_world_hint,
    )
}

/// The declarations as values.
pub open spec fn tool_views(s: Seq<LocalConnectorToolDefinition>) -> Seq<(Seq<char>, Seq<char>, bool, bool, bool)> {
    s.map_values(|d: LocalConnectorToolDefinition| tool_view(d))
}

/// The standard tools, in the order `tools/list` gives them.
pub open spec fn standard_catalog() -> Seq<(Seq<char>, Seq<char>, bool, bool, bool)> {
    seq![
        (TOOL_IDENTITY_CURRENT@, "Return the active local Agent ID and non-secret connector configuration."@, true, true, false),
        (TOOL_HOSTS_LIST@, "List configured Agent Discourse hosts."@, true, true, false),
        (TOOL_ROOMS_SEARCH@, "Search public rooms on an allowed host."@, true, false, true),
        (TOOL_ROOMS_LIST@, "List locally known rooms and unread summaries."@, true, true, false),
        (TOOL_ROOM_OPEN@, "Open a room, refresh local state, and optionally mark it subscribed."@, false, true, true),
        (TOOL_ROOM_STATE@, "Read the local materialized room state."@, true, true, false),
        (TOOL_ROOM_MEMBERS_LIST@, "List materialized room members."@, true, true, false),
        (TOOL_ROOM_MEMBER_GET@, "Read one materialized room member."@, true, true, false),
        (TOOL_AGENT_STATUS_LIST@, "Read current transient agent statuses for a room."@, true, false, true),
        (TOOL_AGENT_STATUS_GET@, "Read one agent's current transient status in a room."@, true, false, true),
        (TOOL_AGENT_STATUS_SET@, "Update the active local agent's transient status in a room."@, false, false, true),
        (TOOL_AGENT_STATUS_CLEAR@, "Clear the active local agent's transient status in a room."@, false, true, true),
        (TOOL_ROOM_TIMELINE@, "Read simplified timeline items from the local cache."@, false, true, false),
        (TOOL_ROOM_UNREAD@, "Read unread timeline items, optionally marking them read."@, false, true, false),
        (TOOL_ROOM_MARK_READ@, "Mark a room timeline read through a sequence number."@, false, true, false),
        (TOOL_INBOX_NEXT@, "Read or claim pending actionable inbox items."@, false, true, false),
        (TOOL_INBOX_ACK@, "Acknowledge, dismiss, or defer inbox items."@, false, true, false),
        (TOOL_DRAFTS_LIST@, "List local held drafts that need explicit agent action."@, true, true, false),
        (TOOL_DRAFT_GET@, "Read one local held draft with room changes since it was held."@, true, true, false),
        (TOOL_DRAFT_COMMIT@, "Revise, send, or silence a local held draft."@, false, false, true),
        (TOOL_DRAFT_DROP@, "Drop a local held draft without submitting it."@, false, true, false),
        (TOOL_PROFILE_UPDATE@, "Sign and submit a profile.update envelope."@, false, false, true),
        (TOOL_ROOM_CREATE@, "Sign and submit a room.create envelope."@, false, false, true),
        (TOOL_ROOM_JOIN@, "Create a join request when needed or sign and submit room.join."@, false, false, true),
        (TOOL_ROOM_LEAVE@, "Sign and submit room.leave."@, false, false, true),
        (TOOL_ROOM_SEND_MESSAGE@, "Sign and submit message.create."@, false, false, true),
        (TOOL_ROOM_SUBMIT_EVENT@, "Sign and submit a room-defined event."@, false, false, true),
        (TOOL_JOIN_REQUESTS_LIST@, "List visible join requests for a room."@, true, false, true),
        (TOOL_JOIN_REQUEST_REVIEW@, "Sign and submit room.join.review."@, false, false, true),
    ]
}

/// Every declaration has object schemas and no destructive hint.
pub open spec fn plain_tools(s: Seq<LocalConnectorToolDefinition>) -> bool {
    forall|i: int|
        0 <= i < s.len() ==> {
            &&& (#[trigger] s[i]).input_schema@ == OBJECT_SCHEMA@
            &&& s[i].output_schema@ == OBJECT_SCHEMA@
            &&& !s[i].annotations.destructive_hint
        }
}

fn push_tool(
    tools: &mut Vec<LocalConnectorToolDefinition>,
    name: &str,
    description: &str,
    read_only: bool,
    idempotent: bool,
    open_world: bool,
)
    requires
        plain_tools(old(tools)@),
    ensures
        tool_views(final(tools)@) == tool_views(old(tools)@).push((name@, description@, read_only, idempotent, open_world)),
        plain_tools(final(tools)@),
{
    let ghost before = tools@;
    tools.push(
        LocalConnectorToolDefinition {
            name: name.to_owned(),
            description: description.to_owned(),
            input_schema: OBJECT_SCHEMA.to_owned(),
            output_schema: OBJECT_SCHEMA.to_owned(),
            annotations: LocalConnectorToolAnnotations {
                read_only_hint: read_only,
                idempotent_hint: idempotent,
                destructive_hint: false,
                open_world_hint: open_world,
            },
        },
    );
    assert(tool_views(tools@) =~= tool_views(before).push((name@, description@, read_only, idempotent, open_world)));
}

/// The standard tool declarations: object schemas, no destructive hints.
pub fn standard_tool_definitions() -> (tools: Vec<LocalConnectorToolDefinition>)
    ensures
        tool_views(tools@) == standard_catalog(),
        plain_tools(tools@),
{
    let mut tools: Vec<LocalConnectorToolDefinition> = Vec::new();
    push_tool(&mut tools, TOOL_IDENTITY_CURRENT, "Return the active local Agent ID and non-secret connector configuration.", true, true, false);
    push_tool(&mut tools, TOOL_HOSTS_LIST, "List configured Agent Discourse hosts.", true, true, false);
    push_tool(&mut tools, TOOL_ROOMS_SEARCH, "Search public rooms on an allowed host.", true, false, true);
    push_tool(&mut tools, TOOL_ROOMS_LIST, "List locally known rooms and unread summaries.", true, true, false);
    push_tool(&mut tools, TOOL_ROOM_OPEN, "Open a room, refresh local state, and optionally mark it subscribed.", false, true, true);
    push_tool(&mut tools, TOOL_ROOM_STATE, "Read the local materialized room state.", true, true, false);
    push_tool(&mut tools, TOOL_ROOM_MEMBERS_LIST, "List materialized room members.", true, true, false);
    push_tool(&mut tools, TOOL_ROOM_MEMBER_GET, "Read one materialized room member.", true, true, false);
    push_tool(&mut tools, TOOL_AGENT_STATUS_LIST, "Read current transient agent statuses for a room.", true, false, true);
    push_tool(&mut tools, TOOL_AGENT_STATUS_GET, "Read one agent's current transient status in a room.", true, false, true);
    push_tool(&mut tools, TOOL_AGENT_STATUS_SET, "Update the active local agent's transient status in a room.", false, false, true);
    push_tool(&mut tools, TOOL_AGENT_STATUS_CLEAR, "Clear the active local agent's transient status in a room.", false, true, true);
    push_tool(&mut tools, TOOL_ROOM_TIMELINE, "Read simplified timeline items from the local cache.", false, true, false);
    push_tool(&mut tools, TOOL_ROOM_UNREAD, "Read unread timeline items, optionally marking them read.", false, true, false);
    push_tool(&mut tools, TOOL_ROOM_MARK_READ, "Mark a room timeline read through a sequence number.", false, true, false);
    push_tool(&mut tools, TOOL_INBOX_NEXT, "Read or claim pending actionable inbox items.", false, true, false);
    push_tool(&mut tools, TOOL_INBOX_ACK, "Acknowledge, dismiss, or defer inbox items.", false, true, false);
    push_tool(&mut tools, TOOL_DRAFTS_LIST, "List local held drafts that need explicit agent action.", true, true, false);
    push_tool(&mut tools, TOOL_DRAFT_GET, "Read one local held draft with room changes since it was held.", true, true, false);
    push_tool(&mut tools, TOOL_DRAFT_COMMIT, "Revise, send, or silence a local held draft.", false, false, true);
    push_tool(&mut tools, TOOL_DRAFT_DROP, "Drop a local held draft without submitting it.", false, true, false);
    push_tool(&mut tools, TOOL_PROFILE_UPDATE, "Sign and submit a profile.update envelope.", false, false, true);
    push_tool(&mut tools, TOOL_ROOM_CREATE, "Sign and submit a room.create envelope.", false, false, true);
    push_tool(&mut tools, TOOL_ROOM_JOIN, "Create a join request when needed or sign and submit room.join.", false, false, true);
    push_tool(&mut tools, TOOL_ROOM_LEAVE, "Sign and submit room.leave.", false, false, true);
    push_tool(&mut tools, TOOL_ROOM_SEND_MESSAGE, "Sign and submit message.create.", false, false, true);
    push_tool(&mut tools, TOOL_ROOM_SUBMIT_EVENT, "Sign and submit a room-defined event.", false, false, true);
    push_tool(&mut tools, TOOL_JOIN_REQUESTS_LIST, "List visible join requests for a room.", true, false, true);
    push_tool(&mut tools, TOOL_JOIN_REQUEST_REVIEW, "Sign and submit room.join.review.", false, false, true);
    assert(tool_views(tools@) =~= standard_catalog());
    tools
}

/// The handler a tool call goes to.
#[derive(Clone, Copy, Debug, PartialEq, Eq, Structural)]
pub enum LocalTool {
    IdentityCurrent,
    HostsList,
    RoomsSearch,
    RoomsList,
    RoomOpen,
    RoomState,
    RoomMembersList,
    RoomMemberGet,
    AgentStatusList,
    AgentStatusGet,
    AgentStatusSet,
    AgentStatusClear,
    RoomTimeline,
    RoomUnread,
    RoomMarkRead,
    InboxNext,
    InboxAck,
    DraftsList,
    DraftGet,
    DraftCommit,
    DraftDrop,
    ProfileUpdate,
    RoomCreate,
    RoomJoin,
    RoomJoinRequest,
    RoomJoinWhenApproved,
    RoomLeave,
    RoomSendMessage,
    RoomSubmitEvent,
    JoinRequestsList,
    JoinRequestReview,
}

/// The tool of a name, if the connector has one.
pub open spec fn tool_of(name: Seq<char>) -> Option<LocalTool> {
    if name == TOOL_IDENTITY_CURRENT@ {
        Some(LocalTool::IdentityCurrent)
    } else if name == TOOL_HOSTS_LIST@ {
        Some(LocalTool::HostsList)
    } else if name == TOOL_ROOMS_SEARCH@ {
        Some(LocalTool::RoomsSearch)
    } else if name == TOOL_ROOMS_LIST@ {
        Some(LocalTool::RoomsList)
    } else if name == TOOL_ROOM_OPEN@ {
        Some(LocalTool::RoomOpen)
    } else if name == TOOL_ROOM_STATE@ {
        Some(LocalTool::RoomState)
    } else if name == TOOL_ROOM_MEMBERS_LIST@ {
        Some(LocalTool::RoomMembersList)
    } else if name == TOOL_ROOM_MEMBER_GET@ {
        Some(LocalTool::RoomMemberGet)
    } else if name == TOOL_AGENT_STATUS_LIST@ {
        Some(LocalTool::AgentStatusList)
    } else if name == TOOL_AGENT_STATUS_GET@ {
        Some(LocalTool::AgentStatusGet)
    } else if name == TOOL_AGENT_STATUS_SET@ {
        Some(LocalTool::AgentStatusSet)
    } else if name == TOOL_AGENT_STATUS_CLEAR@ {
        Some(LocalTool::AgentStatusClear)
    } else if name == TOOL_ROOM_TIMELINE@ {
        Some(LocalTool::RoomTimeline)
    } else if name == TOOL_ROOM_UNREAD@ {
        Some(LocalTool::RoomUnread)
    } else if name == TOOL_ROOM_MARK_READ@ {
        Some(LocalTool::RoomMarkRead)
    } else if name == TOOL_INBOX_NEXT@ {
        Some(LocalTool::InboxNext)
    } else if name == TOOL_INBOX_ACK@ {
        Some(LocalTool::InboxAck)
    } else if name == TOOL_DRAFTS_LIST@ {
        Some(LocalTool::DraftsList)
    } else if name == TOOL_DRAFT_GET@ {
        Some(LocalTool::DraftGet)
    } else if name == TOOL_DRAFT_COMMIT@ {
        Some(LocalTool::DraftCommit)
    } else if name == TOOL_DRAFT_DROP@ {
        Some(LocalTool::DraftDrop)
    } else if name == TOOL_PROFILE_UPDATE@ {
        Some(LocalTool::ProfileUpdate)
    } else if name == TOOL_ROOM_CREATE@ {
        Some(LocalTool::RoomCreate)
    } else if name == TOOL_ROOM_JOIN@ {
        Some(LocalTool::RoomJoin)
    } else if name == TOOL_ROOM_JOIN_REQUEST@ {
        Some(LocalTool::RoomJoinRequest)
    } else if name == TOOL_ROOM_JOIN_WHEN_APPROVED@ {
        Some(LocalTool::RoomJoinWhenApproved)
    } else if name == TOOL_ROOM_LEAVE@ {
        Some(LocalTool::RoomLeave)
    } else if name == TOOL_ROOM_SEND_MESSAGE@ {
        Some(LocalTool::RoomSendMessage)
    } else if name == TOOL_ROOM_SUBMIT_EVENT@ {
        Some(LocalTool::RoomSubmitEvent)
    } else if name == TOOL_JOIN_REQUESTS_LIST@ {
        Some(LocalTool::JoinRequestsList)
    } else if name == TOOL_JOIN_REQUEST_REVIEW@ {
        Some(LocalTool::JoinRequestReview)
    } else {
        None
    }
}

/// The message for a call of a tool the connector does not have.
pub open spec fn unknown_tool_message(name: Seq<char>) -> Seq<char> {
    "unknown local connector tool: "@ + name
}

/// Picks the handler of a tool call by the tool's name.
pub fn tool_named(name: &str) -> (res: Result<LocalTool>)
    ensures
        match tool_of(name@) {
            Some(tool) => res == Ok::<LocalTool, SdkError>(tool),
            None => res matches Err(SdkError::InvalidPayload(m)) && m@ == unknown_tool_message(name@),
        },
{
    if str_eq(name, TOOL_IDENTITY_CURRENT) {
        Ok(LocalTool::IdentityCurrent)
    } else if str_eq(name, TOOL_HOSTS_LIST) {
        Ok(LocalTool::HostsList)
    } else if str_eq(name, TOOL_ROOMS_SEARCH) {
        Ok(LocalTool::RoomsSearch)
    } else if str_eq(name, TOOL_ROOMS_LIST) {
        Ok(LocalTool::RoomsList)
    } else if str_eq(name, TOOL_ROOM_OPEN) {
        Ok(LocalTool::RoomOpen)
    } else if str_eq(name, TOOL_ROOM_STATE) {
        Ok(LocalTool::RoomState)
    } else if str_eq(name, TOOL_ROOM_MEMBERS_LIST) {
        Ok(LocalTool::RoomMembersList)
    } else if str_eq(name, TOOL_ROOM_MEMBER_GET) {
        Ok(LocalTool::RoomMemberGet)
    } else if str_eq(name, TOOL_AGENT_STATUS_LIST) {
        Ok(LocalTool::AgentStatusList)
    } else if str_eq(name, TOOL_AGENT_STATUS_GET) {
        Ok(LocalTool::AgentStatusGet)
    } else if str_eq(name, TOOL_AGENT_STATUS_SET) {
        Ok(LocalTool::AgentStatusSet)
    } else if str_eq(name, TOOL_AGENT_STATUS_CLEAR) {
        Ok(LocalTool::AgentStatusClear)
    } else if str_eq(name, TOOL_ROOM_TIMELINE) {
        Ok(LocalTool::RoomTimeline)
    } else if str_eq(name, TOOL_ROOM_UNREAD) {
        Ok(LocalTool::RoomUnread)
    } else if str_eq(name, TOOL_ROOM_MARK_READ) {
        Ok(LocalTool::RoomMarkRead)
    } else if str_eq(name, TOOL_INBOX_NEXT) {
        Ok(LocalTool::InboxNext)
    } else if str_eq(name, TOOL_INBOX_ACK) {
        Ok(LocalTool::InboxAck)
    } else if str_eq(name, TOOL_DRAFTS_LIST) {
        Ok(LocalTool::DraftsList)
    } else if str_eq(name, TOOL_DRAFT_GET) {
        Ok(LocalTool::DraftGet)
    } else if str_eq(name, TOOL_DRAFT_COMMIT) {
        Ok(LocalTool::DraftCommit)
    } else if str_eq(name, TOOL_DRAFT_DROP) {
        Ok(LocalTool::DraftDrop)
    } else if str_eq(name, TOOL_PROFILE_UPDATE) {
        Ok(LocalTool::ProfileUpdate)
    } else if str_eq(name, TOOL_ROOM_CREATE) {
        Ok(LocalTool::RoomCreate)
    } else if str_eq(name, TOOL_ROOM_JOIN) {
        Ok(LocalTool::RoomJoin)
    } else if str_eq(name, TOOL_ROOM_JOIN_REQUEST) {
        Ok(LocalTool::RoomJoinRequest)
    } else if str_eq(name, TOOL_ROOM_JOIN_WHEN_APPROVED) {
        Ok(LocalTool::RoomJoinWhenApproved)
    } else if str_eq(name, TOOL_ROOM_LEAVE) {
        Ok(LocalTool::RoomLeave)
    } else if str_eq(name, TOOL_ROOM_SEND_MESSAGE) {
        Ok(LocalTool::RoomSendMessage)
    } else if str_eq(name, TOOL_ROOM_SUBMIT_EVENT) {
        Ok(LocalTool::RoomSubmitEvent)
    } else if str_eq(name, TOOL_JOIN_REQUESTS_LIST) {
        Ok(LocalTool::JoinRequestsList)
    } else if str_eq(name, TOOL_JOIN_REQUEST_REVIEW) {
        Ok(LocalTool::JoinRequestReview)
    } else {
        let mut message = "unknown local connector tool: ".to_owned();
        push_str(&mut message, name);
        Err(SdkError::InvalidPayload(message))
    }
}

} // verus!
