//! The pure core of the local Agent Protocols connector: the static tool
//! catalog, the structured views it returns, and the room-state rules that
//! gate and project accepted records.

mod apply;

pub use apply::{
    advances_head, apply_failure, apply_record_to, base_failure, builtin_class_of, builtin_event_class, declared_base_seq,
    defined_kind, event_type_advances_room_head, extra_lookup, lemma_signal_records_ignore_the_head,
    lemma_signal_records_keep_the_head, extra_value, record_advances_room_head, record_applied,
    validate_record_base_precondition, BuiltinEventClass,
};
mod catalog;

pub use catalog::{
    plain_tools, tool_named, tool_of, unknown_tool_message, LocalTool, standard_catalog, standard_tool_definitions, tool_view, tool_views, LocalConnectorToolAnnotations,
    LocalConnectorToolDefinition, OBJECT_SCHEMA, RESOURCE_DRAFTS_HELD, RESOURCE_HOSTS, RESOURCE_IDENTITY_CURRENT,
    RESOURCE_INBOX_PENDING, RESOURCE_ROOMS, RESOURCE_ROOM_AGENT_STATUS_SUFFIX, TOOL_AGENT_STATUS_CLEAR,
    TOOL_AGENT_STATUS_GET, TOOL_AGENT_STATUS_LIST, TOOL_AGENT_STATUS_SET, TOOL_DRAFTS_LIST, TOOL_DRAFT_COMMIT,
    TOOL_DRAFT_DROP, TOOL_DRAFT_GET, TOOL_HOSTS_LIST, TOOL_IDENTITY_CURRENT, TOOL_INBOX_ACK, TOOL_INBOX_NEXT,
    TOOL_JOIN_REQUESTS_LIST, TOOL_JOIN_REQUEST_REVIEW, TOOL_PROFILE_UPDATE, TOOL_ROOMS_LIST, TOOL_ROOMS_SEARCH,
    TOOL_ROOM_CREATE, TOOL_ROOM_JOIN, TOOL_ROOM_JOIN_REQUEST, TOOL_ROOM_JOIN_WHEN_APPROVED, TOOL_ROOM_LEAVE,
    TOOL_ROOM_MARK_READ, TOOL_ROOM_MEMBERS_LIST, TOOL_ROOM_MEMBER_GET, TOOL_ROOM_OPEN, TOOL_ROOM_SEND_MESSAGE,
    TOOL_ROOM_STATE, TOOL_ROOM_SUBMIT_EVENT, TOOL_ROOM_TIMELINE, TOOL_ROOM_UNREAD,
};
mod views;

pub use views::{
    profile_to_member_profile, end_time_of, guidance_of, room_end_time, room_guidance, room_start_time, room_topic, room_visibility,
    start_time_of, topic_of, visibility_of, first_chars, inbox_from_item, inbox_id, inbox_item_of, inbox_kind_name, inbox_kind_str, payload_summary,
    summarize_payload, summary_member, take_chars, timeline_kind, timeline_kind_of, SUMMARY_CHARS,
    ActiveTurn, AgentProtocolsHost, DraftAction, HeadMismatchPolicy, HeldDraft, HeldDraftKind, InboxItem, InboxKind,
    InboxPriority, RoomMemberProfile, RoomMemberStatus, RoomMemberView, RoomStateView, RoomSummary, SyncState,
    TimelineItem,
};
mod state;

pub use state::{
    default_room_limit, room_flags, room_list_positions, room_listed, room_state_name, room_state_str, key_flags,
    resolve_room_key, resolved_room_key, open_fetch_of, room_open_fetch, continues_local_chain, draft_id_char, duplicate_record, next_draft_id, entry_ready, head_mismatch, head_mismatched, held_draft_options,
    inbox_entry_ready, is_duplicate_record, lemma_first_member_unique, member_position, membership_filter, membership_matches, first_member_at, normalize_host, room_head_for_write, sync_head, unread_in,
    validate_next_record, write_base, InboxEntry, InboxEntryState, LocalRoomState, RoomsListMembership,
};
mod drafts;

pub use drafts::{
    dropped_json, dropped_result, find_draft, commit_settles_draft, commit_step, default_draft_limit, draft_flags, draft_match, draft_page, filter_text, committed_event, committed_message, plan_draft_commit, revised, settles_draft,
    DraftCommitInput, DraftCommitStep, HeldDraftRequest, RoomSendMessageInput, RoomSubmitEventInput,
};
mod joins;

pub use joins::{join_request_flags, join_request_positions, join_status_name, join_status_str, join_route, join_route_of, JoinRoute, approval_result, approved_join_role, approved_join_role_for, granted_role, role_mismatch_message};
mod projection;

pub use projection::{
    fresh_removed_view, member_removed, removal_status, removed_view, room_updated, ROOM_MEMBER_REMOVE, ROOM_UPDATE,
    active_turn_from_item, apply_record_projection, creator_materialized, creator_view, insertion_point,
    materialize_creator, instruction_in, joined_view,
    lemma_joined_member_is_listed, lemma_projection_keeps_members_sorted, members_sorted, left_view, member_joined, mentions,
    names_turn, payload_fits, payload_required, projection_applied, raised, role_view, steer_targets_agent, steers,
    turn_id_in, turn_of, without_type, ProjectionPayload,
};
mod queries;

pub use queries::{
    agent_views, default_read_limit, flagged, page_of_flags, first_n, matching_positions, positions_through, timeline_match, unread_query,
    unread_selection, member_match, member_matches, page, default_member_limit, change_positions, recent_positions,
    TimelineQuery,
};
mod inbox;

pub use inbox::{
    acked_state, entries_map, entry_selected, ids_sorted, lemma_claimed_not_offered, lemma_selection_len,
    lemma_selection_members, pending_in, present_ids, same_item, selection, Inbox, InboxAckAction,
};
