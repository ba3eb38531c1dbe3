use agent_protocols::discourse::{
    event_type, JoinDecision, RoomCreatePayload, Visibility, Role, RoleUpdatePayload, RoomJoinPayload, RoomJoinRequest, RoomJoinReviewPayload, RoomResponse,
    RoomJoinRequestStatus, JoinRequestStatus, RoomState, ServerRecord, TypeDeclaration, TypeDef, TypeKind,
};
use agent_protocols::identity::{AgentSigner, Envelope, Event};
use agent_protocols::error::SdkError;
use agent_protocols::discourse::{build_server_record, discourse_event, RoomMemberRemovePayload, RoomUpdatePayload, PROTOCOL};
use agent_protocols::local_connector::{find_draft, dropped_result, ROOM_MEMBER_REMOVE, ROOM_UPDATE, apply_record_to, validate_record_base_precondition, event_type_advances_room_head};
use agent_protocols::profile::AgentProfile;
use agent_protocols::local_connector::{
    head_mismatch, held_draft_options, inbox_entry_ready, inbox_from_item, is_duplicate_record, normalize_host,
    room_head_for_write, standard_tool_definitions, timeline_kind, validate_next_record, DraftAction, Inbox,
    InboxAckAction, InboxEntry, InboxEntryState, InboxKind, InboxPriority, LocalRoomState, RoomMemberStatus, RoomMemberView,
    RoomsListMembership, SyncState, TimelineItem, membership_filter, active_turn_from_item, apply_record_projection,
    steer_targets_agent, next_draft_id, approved_join_role, TimelineQuery, approved_join_role_for, ProjectionPayload,
    materialize_creator, summarize_payload, plan_draft_commit, commit_settles_draft, DraftCommitInput, DraftCommitStep,
    HeldDraftRequest, RoomSendMessageInput, RoomSubmitEventInput, HeadMismatchPolicy, draft_page, HeldDraft, HeldDraftKind,
    tool_named, LocalTool, join_route, JoinRoute, room_open_fetch, room_visibility, room_topic, room_guidance,
    room_start_time, room_end_time, TOOL_ROOM_JOIN_WHEN_APPROVED, resolve_room_key, profile_to_member_profile,
    room_list_positions, join_request_positions,
    TOOL_DRAFTS_LIST, TOOL_INBOX_NEXT, TOOL_ROOM_JOIN, TOOL_ROOM_JOIN_REQUEST, TOOL_ROOM_MEMBERS_LIST,
    TOOL_ROOM_SEND_MESSAGE, TOOL_ROOM_TIMELINE,
};

#[test]
fn standard_tool_definitions_include_agent_facing_tools() {
    let tools = standard_tool_definitions();
    let names = tools.iter().map(|tool| tool.name.as_str()).collect::<Vec<_>>();
    assert!(names.contains(&TOOL_ROOM_MEMBERS_LIST));
    assert!(names.contains(&TOOL_INBOX_NEXT));
    assert!(names.contains(&TOOL_DRAFTS_LIST));
    assert!(names.contains(&TOOL_ROOM_JOIN));
    assert!(!names.contains(&TOOL_ROOM_JOIN_REQUEST));
    assert!(names.contains(&TOOL_ROOM_SEND_MESSAGE));
    assert!(tools.iter().find(|tool| tool.name == TOOL_ROOM_MEMBERS_LIST).unwrap().annotations.read_only_hint);
}

#[test]
fn standard_tools_exclude_host_mutation_and_mark_timeline_writable() {
    let tools = standard_tool_definitions();
    assert!(!tools.iter().any(|tool| tool.name == "agent_protocols_host_add"));
    let timeline = tools.iter().find(|tool| tool.name == TOOL_ROOM_TIMELINE).unwrap();
    assert!(!timeline.annotations.read_only_hint);
    assert!(timeline.annotations.idempotent_hint);
    let inbox_next = tools.iter().find(|tool| tool.name == TOOL_INBOX_NEXT).unwrap();
    assert!(!inbox_next.annotations.read_only_hint);
}

#[test]
fn standard_tools_have_object_schemas() {
    let tools = standard_tool_definitions();
    assert_eq!(tools.len(), 29);
    assert!(tools.iter().all(|tool| tool.input_schema == "{\"type\":\"object\"}" && !tool.annotations.destructive_hint));
}

#[test]
fn classifies_timeline_kinds() {
    assert_eq!(timeline_kind(event_type::MESSAGE_CREATE), "message");
    assert_eq!(timeline_kind(event_type::ROOM_JOIN), "room");
    assert_eq!(timeline_kind("turn.update"), "control");
    assert_eq!(timeline_kind("graph.update"), "control");
    assert_eq!(timeline_kind("poll.create"), "signal");
    assert_eq!(timeline_kind("poll.vote"), "event");
}

fn item(signer: &AgentSigner) -> TimelineItem {
    TimelineItem {
        room_id: "room1".to_owned(),
        seq: 7,
        event_id: "evt".to_owned(),
        event_type: event_type::MESSAGE_CREATE.to_owned(),
        kind: "message".to_owned(),
        actor: signer.agent_id(),
        created_at: 10,
        received_at: 11,
        summary: "please review this".to_owned(),
        content_type: None,
        content: None,
        mentions: Vec::new(),
        references: Vec::new(),
        payload: "{}".to_owned(),
    }
}

#[test]
fn raises_inbox_items() {
    let signer = AgentSigner::from_seed([1; 32]);
    let entry = inbox_from_item(InboxKind::RoomMention, InboxPriority::High, &item(&signer), "mentioned", true);
    assert_eq!(entry.id, "room1:room.mention:7:evt");
    assert_eq!(entry.created_at, 11);
    assert_eq!(entry.suggested_tools, vec![TOOL_ROOM_SEND_MESSAGE.to_owned()]);
    assert_eq!(entry.message.as_deref(), Some("{\"summary\":\"please review this\"}"));
    let quiet = inbox_from_item(InboxKind::RoomMessageNew, InboxPriority::Normal, &item(&signer), "new_message", false);
    assert!(quiet.suggested_tools.is_empty());
    let deferred = InboxEntry { item: quiet, state: InboxEntryState::Deferred(100) };
    assert!(!inbox_entry_ready(&deferred, 99));
    assert!(inbox_entry_ready(&deferred, 100));
    let claimed = InboxEntry { item: entry, state: InboxEntryState::Claimed };
    assert!(!inbox_entry_ready(&claimed, 1000));
}

fn record(signer: &AgentSigner, seq: u64, pre_hash: Option<String>, hash: &str) -> ServerRecord<String> {
    let payload = "{}".to_owned();
    ServerRecord {
        room_id: "room1".to_owned(),
        seq,
        pre_hash,
        hash: hash.to_owned(),
        received_at: 5,
        envelope: Envelope {
            hash: "h".to_owned(),
            signature: "s".to_owned(),
            event: Event::new("agent-discourse/1.0", "poll.vote", signer.agent_id(), 1, 1, payload),
        },
    }
}

fn room() -> RoomResponse {
    RoomResponse {
        id: "room1".to_owned(),
        status: RoomState::Active,
        url: "https://api.example.test/v1/rooms/room1".to_owned(),
        topic: None,
        guidance: None,
        visibility: None,
        start_time: None,
        end_time: None,
        policy: None,
        types: Vec::new(),
        seq: 1,
        pre_hash: None,
        hash: "head".to_owned(),
        received_at: 1,
        envelope: None,
    }
}

#[test]
fn gates_records_on_the_local_chain() {
    let signer = AgentSigner::from_seed([2; 32]);
    let mut state = LocalRoomState::new("https://api.example.test".to_owned(), room());
    validate_next_record(&state, &record(&signer, 1, None, "a")).unwrap();
    assert!(validate_next_record(&state, &record(&signer, 2, None, "a")).is_err());
    assert!(validate_next_record(&state, &record(&signer, 1, Some("x".to_owned()), "a")).is_err());
    state.records.push(record(&signer, 1, None, "a"));
    state.synced_seq = 1;
    state.synced_hash = Some("a".to_owned());
    validate_next_record(&state, &record(&signer, 2, Some("a".to_owned()), "b")).unwrap();
    assert!(validate_next_record(&state, &record(&signer, 2, Some("z".to_owned()), "b")).is_err());
    assert!(validate_next_record(&state, &record(&signer, 3, Some("a".to_owned()), "b")).is_err());
    assert!(is_duplicate_record(&state, &record(&signer, 1, None, "a")));
    assert!(!is_duplicate_record(&state, &record(&signer, 1, None, "other")));
    assert!(!is_duplicate_record(&state, &record(&signer, 2, Some("a".to_owned()), "b")));
    state.timeline.push(item(&signer));
    assert_eq!(state.unread_count(), 1);
    state.read_seq = 7;
    assert_eq!(state.unread_count(), 0);
}

fn item_in(signer: &AgentSigner, room: &str, seq: u64) -> TimelineItem {
    let mut it = item(signer);
    it.room_id = room.to_owned();
    it.seq = seq;
    it
}

#[test]
fn inbox_offers_claims_and_acknowledges_in_id_order() {
    let signer = AgentSigner::from_seed([3; 32]);
    let mut inbox = Inbox::new();
    inbox.insert(inbox_from_item(InboxKind::RoomMention, InboxPriority::High, &item_in(&signer, "room2", 1), "m", true));
    inbox.insert(inbox_from_item(InboxKind::RoomMessageNew, InboxPriority::Normal, &item_in(&signer, "room1", 2), "n", false));
    inbox.insert(inbox_from_item(InboxKind::RoomMessageNew, InboxPriority::Normal, &item_in(&signer, "room1", 3), "n", false));
    inbox.insert(inbox_from_item(InboxKind::RoomMessageNew, InboxPriority::Normal, &item_in(&signer, "room1", 2), "again", false));
    assert_eq!(inbox.len(), 3);
    assert_eq!(inbox.pending_count(None, 0), 3);
    assert_eq!(inbox.pending_count(Some("room1"), 0), 2);

    let first = inbox.next(0, None, None, 2, true);
    let ids: Vec<&str> = first.iter().map(|i| i.id.as_str()).collect();
    assert_eq!(ids, vec!["room1:room.message.new:2:evt", "room1:room.message.new:3:evt"]);
    assert_eq!(first[0].reason, "n");
    let second = inbox.next(0, None, None, 10, false);
    assert_eq!(second.len(), 1);
    assert_eq!(second[0].id, "room2:room.mention:1:evt");
    let kinds = vec!["room.message.new".to_owned()];
    assert!(inbox.next(0, None, Some(&kinds), 10, false).is_empty());

    let acked = inbox.ack(
        &vec!["room2:room.mention:1:evt".to_owned(), "missing".to_owned()],
        InboxAckAction::Defer,
        50,
    );
    assert_eq!(acked, vec!["room2:room.mention:1:evt".to_owned()]);
    assert_eq!(inbox.pending_count(None, 49), 0);
    assert_eq!(inbox.pending_count(None, 50), 1);
    inbox.ack(&vec!["room2:room.mention:1:evt".to_owned()], InboxAckAction::Handled, 0);
    assert_eq!(inbox.pending_count(None, 1000), 0);
    let (entry, state) = inbox.entry(2);
    assert_eq!(entry.id, "room2:room.mention:1:evt");
    assert_eq!(state, InboxEntryState::Acknowledged);
}

fn sync(head_seq: u64, head_hash: &str) -> SyncState {
    SyncState {
        host: "https://api.example.test".to_owned(),
        room_id: "room1".to_owned(),
        head_seq,
        head_hash: head_hash.to_owned(),
        synced_seq: head_seq,
        remote_seq: head_seq,
        subscribed: false,
        unread_count: 0,
        pending_inbox_count: 0,
    }
}

#[test]
fn chooses_the_room_head_of_a_write() {
    let known = sync(4, "h4");
    assert_eq!(room_head_for_write("room1", Some(&known), None, None).unwrap(), (4, "h4".to_owned()));
    assert_eq!(room_head_for_write("room1", None, Some(2), Some("h2".to_owned())).unwrap(), (2, "h2".to_owned()));
    assert!(matches!(room_head_for_write("room1", Some(&known), Some(2), None), Err(SdkError::InvalidPayload(_))));
    assert!(room_head_for_write("room1", Some(&known), Some(0), Some("h".to_owned())).is_err());
    assert!(room_head_for_write("room1", Some(&sync(0, "")), None, None).is_err());
    assert!(matches!(
        room_head_for_write("room1", None, None, None),
        Err(SdkError::InvalidPayload(m)) if m == "room is not open locally: room1"
    ));
    assert!(!head_mismatch(&known, Some(4), Some("h4")));
    assert!(head_mismatch(&known, Some(3), None));
    assert!(head_mismatch(&known, None, Some("h3")));
    assert!(!head_mismatch(&known, None, None));
    assert_eq!(normalize_host("https://a.example.test//"), "https://a.example.test");
    assert_eq!(held_draft_options(), vec![DraftAction::Revise, DraftAction::SendAsIs, DraftAction::StaySilent, DraftAction::SendAnyway]);
}

fn member(signer: &AgentSigner, role: Role, is_creator: bool) -> RoomMemberView {
    RoomMemberView {
        agent_id: signer.agent_id(),
        role,
        status: RoomMemberStatus::Active,
        is_creator,
        perspective: None,
        joined_seq: Some(1),
        left_seq: None,
        last_event_seq: None,
        profile: None,
        extra: Vec::new(),
    }
}

#[test]
fn membership_filter_follows_the_listing_agents_membership() {
    let creator = AgentSigner::from_seed([3; 32]);
    let speaker = AgentSigner::from_seed([4; 32]);
    let outsider = AgentSigner::from_seed([5; 32]);
    let mut state = LocalRoomState::new("https://api.example.test".to_owned(), room());
    state.members.push(member(&creator, Role::Moderator, true));
    state.members.push(member(&speaker, Role::Speaker, false));

    assert!(membership_filter(&state, &outsider.agent_id(), None));
    assert!(membership_filter(&state, &outsider.agent_id(), Some(RoomsListMembership::All)));
    assert!(!membership_filter(&state, &outsider.agent_id(), Some(RoomsListMembership::Member)));
    assert!(membership_filter(&state, &speaker.agent_id(), Some(RoomsListMembership::Member)));
    assert!(membership_filter(&state, &creator.agent_id(), Some(RoomsListMembership::Creator)));
    assert!(!membership_filter(&state, &speaker.agent_id(), Some(RoomsListMembership::Creator)));
    assert!(membership_filter(&state, &creator.agent_id(), Some(RoomsListMembership::Moderator)));
    assert!(!membership_filter(&state, &speaker.agent_id(), Some(RoomsListMembership::Moderator)));
    assert!(!membership_filter(&state, &creator.agent_id(), Some(RoomsListMembership::Pending)));
}

fn kind_record(signer: &AgentSigner, seq: u64, kind: &str, payload: &str) -> ServerRecord<String> {
    ServerRecord {
        room_id: "room1".to_owned(),
        seq,
        pre_hash: None,
        hash: format!("h{seq}"),
        received_at: 5,
        envelope: Envelope {
            hash: "h".to_owned(),
            signature: "s".to_owned(),
            event: Event::new("agent-discourse/1.0", kind, signer.agent_id(), 1, 1, payload.to_owned()),
        },
    }
}

fn item_with(signer: &AgentSigner, seq: u64, payload: &str) -> TimelineItem {
    let mut timeline_item = item_in(signer, "room1", seq);
    timeline_item.payload = payload.to_owned();
    timeline_item
}

fn object_def(name: &str) -> TypeDef {
    TypeDef {
        name: name.to_owned(),
        kind: TypeKind::Message,
        title: "Finding".to_owned(),
        description: None,
        schema: "{\"type\":\"object\"}".to_owned(),
        roles: None,
        instructions: None,
        version: None,
        status: None,
        rate_hint: None,
        max_payload_hint: None,
        extra: Vec::new(),
    }
}

#[test]
fn projects_membership_records() {
    let me = AgentSigner::from_seed([6; 32]);
    let other = AgentSigner::from_seed([7; 32]);
    let mut state = LocalRoomState::new("https://api.example.test".to_owned(), room());
    let mut inbox = Vec::new();

    let join = kind_record(&other, 2, event_type::ROOM_JOIN, "{}");
    let payload = ProjectionPayload::RoomJoin(RoomJoinPayload { request_id: "r1".to_owned(), role: Role::Speaker });
    apply_record_projection(&mut state, &join, payload, &item_with(&other, 2, "{}"), &me.agent_id(), &mut inbox).unwrap();
    assert_eq!(state.members.len(), 1);
    assert_eq!(state.members[0].agent_id, other.agent_id());
    assert_eq!(state.members[0].role, Role::Speaker);
    assert_eq!(state.members[0].status, RoomMemberStatus::Active);
    assert_eq!(state.members[0].joined_seq, Some(2));
    assert!(membership_filter(&state, &other.agent_id(), Some(RoomsListMembership::Member)));
    assert!(inbox.is_empty());

    let update = kind_record(&me, 3, event_type::ROOM_MEMBER_ROLE_UPDATE, "{}");
    let payload = ProjectionPayload::RoleUpdate(RoleUpdatePayload {
        member: other.agent_id(),
        role: Role::Moderator,
        reason: None,
        extra: Vec::new(),
    });
    apply_record_projection(&mut state, &update, payload, &item_with(&me, 3, "{}"), &me.agent_id(), &mut inbox).unwrap();
    assert_eq!(state.members[0].role, Role::Moderator);
    assert_eq!(state.members[0].last_event_seq, Some(3));
    assert!(inbox.is_empty());

    let update = kind_record(&me, 4, event_type::ROOM_MEMBER_ROLE_UPDATE, "{}");
    let payload = ProjectionPayload::RoleUpdate(RoleUpdatePayload {
        member: other.agent_id(),
        role: Role::Observer,
        reason: None,
        extra: Vec::new(),
    });
    apply_record_projection(&mut state, &update, payload, &item_with(&me, 4, "{}"), &other.agent_id(), &mut inbox).unwrap();
    assert_eq!(inbox.len(), 1);
    assert_eq!(inbox[0].kind, InboxKind::RoomRoleChanged);
    assert_eq!(inbox[0].reason, "role_changed");

    let leave = kind_record(&other, 5, event_type::ROOM_LEAVE, "{}");
    apply_record_projection(&mut state, &leave, ProjectionPayload::Raw, &item_with(&other, 5, "{}"), &me.agent_id(), &mut inbox)
        .unwrap();
    assert_eq!(state.members[0].status, RoomMemberStatus::Left);
    assert_eq!(state.members[0].left_seq, Some(5));
    assert_eq!(state.members[0].role, Role::Observer);

    let rejoin = kind_record(&other, 6, event_type::ROOM_JOIN, "{}");
    let payload = ProjectionPayload::RoomJoin(RoomJoinPayload { request_id: "r2".to_owned(), role: Role::Observer });
    apply_record_projection(&mut state, &rejoin, payload, &item_with(&other, 6, "{}"), &me.agent_id(), &mut inbox).unwrap();
    assert_eq!(state.members.len(), 1);
    assert_eq!(state.members[0].status, RoomMemberStatus::Active);
    assert_eq!(state.members[0].left_seq, None);
}

#[test]
fn projection_rejects_undecodable_payloads_unchanged() {
    let me = AgentSigner::from_seed([6; 32]);
    let mut state = LocalRoomState::new("https://api.example.test".to_owned(), room());
    let mut inbox = Vec::new();
    let join = kind_record(&me, 2, event_type::ROOM_JOIN, "[]");
    let err = apply_record_projection(
        &mut state,
        &join,
        ProjectionPayload::Malformed("invalid type".to_owned()),
        &item_with(&me, 2, "[]"),
        &me.agent_id(),
        &mut inbox,
    )
    .unwrap_err();
    assert!(matches!(err, SdkError::Json(message) if message == "invalid type"));
    assert!(state.members.is_empty());
    let define = kind_record(&me, 3, event_type::TYPE_DEFINE, "[]");
    apply_record_projection(
        &mut state,
        &define,
        ProjectionPayload::Malformed("invalid type".to_owned()),
        &item_with(&me, 3, "[]"),
        &me.agent_id(),
        &mut inbox,
    )
    .unwrap();
    assert!(state.room.types.is_empty());
    assert!(inbox.is_empty());
}

#[test]
fn projects_lifecycle_and_type_records() {
    let me = AgentSigner::from_seed([6; 32]);
    let mut state = LocalRoomState::new("https://api.example.test".to_owned(), room());
    state.room.types.push(object_def("finding.report"));
    state.room.types.push(object_def("poll.vote"));
    let mut inbox = Vec::new();
    let mut def = object_def("finding.report");
    def.title = "Revised".to_owned();
    let define = kind_record(&me, 2, event_type::TYPE_DEFINE, "{}");
    apply_record_projection(
        &mut state,
        &define,
        ProjectionPayload::TypeDeclaration(TypeDeclaration::Def(def)),
        &item_with(&me, 2, "{}"),
        &me.agent_id(),
        &mut inbox,
    )
    .unwrap();
    let names = state.room.types.iter().map(|t| t.name.as_str()).collect::<Vec<_>>();
    assert_eq!(names, vec!["poll.vote", "finding.report"]);
    assert_eq!(state.room.types[1].title, "Revised");
    assert_eq!(inbox[0].reason, "type_registry_changed");

    let close = kind_record(&me, 3, event_type::ROOM_CLOSE, "{}");
    apply_record_projection(&mut state, &close, ProjectionPayload::Raw, &item_with(&me, 3, "{}"), &me.agent_id(), &mut inbox)
        .unwrap();
    assert_eq!(state.room.status, RoomState::Ended);
    assert_eq!(inbox[1].kind, InboxKind::RoomStateChanged);
    assert_eq!(inbox[1].reason, "room_closed");

    let cancel = kind_record(&me, 4, event_type::ROOM_CANCEL, "{}");
    apply_record_projection(&mut state, &cancel, ProjectionPayload::Raw, &item_with(&me, 4, "{}"), &me.agent_id(), &mut inbox)
        .unwrap();
    assert_eq!(state.room.status, RoomState::Cancelled);
    assert_eq!(inbox[2].reason, "room_cancelled");
}

#[test]
fn projects_messages_reviews_turns_and_steers_into_the_inbox() {
    let me = AgentSigner::from_seed([6; 32]);
    let other = AgentSigner::from_seed([7; 32]);
    let mut state = LocalRoomState::new("https://api.example.test".to_owned(), room());
    let mut inbox = Vec::new();

    let message = kind_record(&other, 2, event_type::MESSAGE_CREATE, "{}");
    apply_record_projection(&mut state, &message, ProjectionPayload::Raw, &item_with(&other, 2, "{}"), &me.agent_id(), &mut inbox)
        .unwrap();
    assert_eq!(inbox[0].kind, InboxKind::RoomMessageNew);
    let mut mention = item_with(&other, 3, "{}");
    mention.mentions.push(me.agent_id());
    let message = kind_record(&other, 3, event_type::MESSAGE_CREATE, "{}");
    apply_record_projection(&mut state, &message, ProjectionPayload::Raw, &mention, &me.agent_id(), &mut inbox).unwrap();
    assert_eq!(inbox[1].kind, InboxKind::RoomMention);
    assert_eq!(inbox[1].priority, InboxPriority::High);
    let own = kind_record(&me, 4, event_type::MESSAGE_CREATE, "{}");
    apply_record_projection(&mut state, &own, ProjectionPayload::Raw, &item_with(&me, 4, "{}"), &me.agent_id(), &mut inbox)
        .unwrap();
    assert_eq!(inbox.len(), 2);

    let request = RoomJoinRequest {
        id: "req".to_owned(),
        room_id: "room1".to_owned(),
        applicant: me.agent_id(),
        role: Role::Speaker,
        perspective: None,
        reason: None,
        created_at: 1,
        expires_at: 2,
        extra: Vec::new(),
    };
    let review = kind_record(&other, 5, event_type::ROOM_JOIN_REVIEW, "{}");
    let payload = ProjectionPayload::JoinReview(RoomJoinReviewPayload {
        request,
        decision: JoinDecision::Approve,
        role: None,
        reason: None,
        extra: Vec::new(),
    });
    apply_record_projection(&mut state, &review, payload, &item_with(&other, 5, "{}"), &me.agent_id(), &mut inbox).unwrap();
    assert_eq!(inbox[2].kind, InboxKind::RoomJoinApproved);
    assert!(inbox[2].requires_response);

    let turn_payload = format!(
        "{{\"speaker\":\"{}\",\"turn_id\":7,\"topic\":\"budget\",\"expires_at\":99}}",
        me.agent_id().as_str()
    );
    let turn = kind_record(&other, 6, "turn.update", &turn_payload);
    apply_record_projection(&mut state, &turn, ProjectionPayload::Raw, &item_with(&other, 6, &turn_payload), &me.agent_id(), &mut inbox)
        .unwrap();
    let active = state.active_turn.as_ref().unwrap();
    assert_eq!(active.turn_id, "7");
    assert_eq!(active.speaker, me.agent_id());
    assert_eq!(active.assigned_seq, 6);
    assert_eq!(active.expires_at, Some(99));
    assert_eq!(active.instruction.as_deref(), Some("budget"));
    assert_eq!(inbox[3].kind, InboxKind::RoomTurnAssigned);

    let steer_payload = format!("{{\"target\":\"{}\"}}", other.agent_id().as_str());
    let steer = kind_record(&other, 7, "steer.create", &steer_payload);
    apply_record_projection(&mut state, &steer, ProjectionPayload::Raw, &item_with(&other, 7, &steer_payload), &me.agent_id(), &mut inbox)
        .unwrap();
    assert_eq!(inbox.len(), 4);
    let steer = kind_record(&other, 8, "steer.create", "{}");
    apply_record_projection(&mut state, &steer, ProjectionPayload::Raw, &item_with(&other, 8, "{}"), &me.agent_id(), &mut inbox)
        .unwrap();
    assert_eq!(inbox[4].kind, InboxKind::RoomSteer);
}

#[test]
fn reads_turns_and_steer_targets_from_payloads() {
    let me = AgentSigner::from_seed([6; 32]);
    let payload = format!(
        "{{\"speaker\":\"{}\",\"turn_id\":\"t-1\",\"intent\":5,\"topic\":\"ignored\"}}",
        me.agent_id().as_str()
    );
    let turn = active_turn_from_item(&item_with(&me, 9, &payload)).unwrap();
    assert_eq!(turn.turn_id, "t-1");
    assert_eq!(turn.instruction, None);
    assert_eq!(turn.expires_at, None);
    assert_eq!(turn.source_event_id, "evt");
    assert!(active_turn_from_item(&item_with(&me, 9, "{\"speaker\":\"nobody\",\"turn_id\":\"t\"}")).is_none());
    let no_id = format!("{{\"speaker\":\"{}\"}}", me.agent_id().as_str());
    assert!(active_turn_from_item(&item_with(&me, 9, &no_id)).is_none());
    assert!(steer_targets_agent("{}", &me.agent_id()));
    assert!(steer_targets_agent("{\"target\":3}", &me.agent_id()));
    assert!(!steer_targets_agent("{\"target\":\"someone\"}", &me.agent_id()));
    let mine = format!("{{\"target\":\"{}\"}}", me.agent_id().as_str());
    assert!(steer_targets_agent(&mine, &me.agent_id()));
}

fn join_status(applicant: &AgentSigner, status: JoinRequestStatus, approved_role: Option<Role>) -> RoomJoinRequestStatus {
    RoomJoinRequestStatus {
        request: RoomJoinRequest {
            id: "req".to_owned(),
            room_id: "room1".to_owned(),
            applicant: applicant.agent_id(),
            role: Role::Speaker,
            perspective: None,
            reason: None,
            created_at: 1,
            expires_at: 2,
            extra: Vec::new(),
        },
        status,
        approved_role,
        review_reason: None,
        reviewed_by: None,
        reviewed_at: None,
    }
}

#[test]
fn join_requests_complete_only_when_approved_for_the_agent() {
    let me = AgentSigner::from_seed([8; 32]);
    let other = AgentSigner::from_seed([9; 32]);
    let approved = join_status(&me, JoinRequestStatus::Approved, None);
    assert_eq!(approved_join_role(&approved, &me.agent_id()).unwrap(), Role::Speaker);
    let promoted = join_status(&me, JoinRequestStatus::Approved, Some(Role::Observer));
    assert_eq!(approved_join_role(&promoted, &me.agent_id()).unwrap(), Role::Observer);
    let err = approved_join_role(&approved, &other.agent_id()).unwrap_err();
    assert!(matches!(err, SdkError::InvalidPayload(m) if m == "join request belongs to another agent"));
    let pending = join_status(&me, JoinRequestStatus::Pending, None);
    let err = approved_join_role(&pending, &me.agent_id()).unwrap_err();
    assert!(matches!(err, SdkError::InvalidPayload(m) if m == "join request is not approved"));
    assert_eq!(approved_join_role_for(&promoted, &me.agent_id(), Role::Observer).unwrap(), Role::Observer);
    let err = approved_join_role_for(&promoted, &me.agent_id(), Role::Speaker).unwrap_err();
    assert!(matches!(err, SdkError::InvalidPayload(m) if m == "join_request_role_mismatch: approved role is Observer"));
}

#[test]
fn draft_ids_sanitize_the_room_and_count_held_drafts() {
    assert_eq!(next_draft_id("room 1/x-y_z", 2), "draft_room_1_x-y_z_3");
    assert_eq!(next_draft_id("", 0), "draft__1");
    assert_eq!(next_draft_id("é", 9), "draft___10");
}

fn timeline_state(signer: &AgentSigner, other: &AgentSigner) -> LocalRoomState {
    let mut state = LocalRoomState::new("https://api.example.test".to_owned(), room());
    for seq in 1..=6u64 {
        let author = if seq % 2 == 0 { other } else { signer };
        let mut it = item_in(author, "room1", seq);
        it.event_type = if seq == 3 { "poll.vote".to_owned() } else { "message.create".to_owned() };
        state.timeline.push(it);
    }
    state
}

#[test]
fn timeline_queries_filter_and_limit_in_order() {
    let me = AgentSigner::from_seed([10; 32]);
    let other = AgentSigner::from_seed([11; 32]);
    let mut state = timeline_state(&me, &other);
    let all = TimelineQuery { after_seq: None, before_seq: None, types: None, actors: None, unread_only: false, limit: None };
    assert_eq!(state.timeline_positions(&all), vec![0, 1, 2, 3, 4, 5]);
    let window = TimelineQuery { after_seq: Some(1), before_seq: Some(6), limit: Some(3), ..all };
    assert_eq!(state.timeline_positions(&window), vec![1, 2, 3]);
    let votes = TimelineQuery {
        after_seq: None,
        before_seq: None,
        types: Some(vec!["poll.vote".to_owned()]),
        actors: None,
        unread_only: false,
        limit: None,
    };
    assert_eq!(state.timeline_positions(&votes), vec![2]);
    let by_other = TimelineQuery {
        after_seq: None,
        before_seq: None,
        types: None,
        actors: Some(vec![other.agent_id()]),
        unread_only: false,
        limit: None,
    };
    assert_eq!(state.timeline_positions(&by_other), vec![1, 3, 5]);
    state.read_seq = 4;
    let unread = TimelineQuery { after_seq: None, before_seq: None, types: None, actors: None, unread_only: true, limit: None };
    assert_eq!(state.timeline_positions(&unread), vec![4, 5]);
}

#[test]
fn reading_unread_items_moves_the_mark() {
    let me = AgentSigner::from_seed([10; 32]);
    let other = AgentSigner::from_seed([11; 32]);
    let mut state = timeline_state(&me, &other);
    state.read_seq = 2;
    let (positions, unread) = state.read_unread(Some(2), false);
    assert_eq!(positions, vec![2, 3]);
    assert_eq!(unread, 4);
    assert_eq!(state.read_seq, 2);
    let (positions, unread) = state.read_unread(Some(2), true);
    assert_eq!(positions, vec![0, 1, 2, 3]);
    assert_eq!(state.read_seq, 4);
    assert_eq!(unread, 2);
    assert_eq!(state.mark_read(3), 2);
    assert_eq!(state.read_seq, 4);
    assert_eq!(state.mark_read(9), 0);
    assert_eq!(state.read_seq, 9);
    let (positions, unread) = state.read_unread(None, true);
    assert!(positions.is_empty());
    assert_eq!(unread, 0);
    assert_eq!(state.read_seq, 9);
}

#[test]
fn joined_members_are_kept_in_id_order_and_listed_by_page() {
    let me = AgentSigner::from_seed([12; 32]);
    let mut state = LocalRoomState::new("https://api.example.test".to_owned(), room());
    let mut inbox = Vec::new();
    let mut signers: Vec<AgentSigner> = (20..25u8).map(|b| AgentSigner::from_seed([b; 32])).collect();
    for (n, signer) in signers.iter().enumerate() {
        let join = kind_record(signer, n as u64 + 2, event_type::ROOM_JOIN, "{}");
        let role = if n % 2 == 0 { Role::Speaker } else { Role::Observer };
        let payload = ProjectionPayload::RoomJoin(RoomJoinPayload { request_id: format!("r{n}"), role });
        apply_record_projection(&mut state, &join, payload, &item_with(signer, n as u64 + 2, "{}"), &me.agent_id(), &mut inbox)
            .unwrap();
    }
    let ids: Vec<String> = state.members.iter().map(|m| m.agent_id.as_str().to_owned()).collect();
    let mut sorted = ids.clone();
    sorted.sort();
    assert_eq!(ids, sorted);
    signers.sort_by(|a, b| a.agent_id().as_str().cmp(b.agent_id().as_str()));
    assert_eq!(state.members[0].agent_id, signers[0].agent_id());

    assert_eq!(state.member_positions(None, None, 0, None), vec![0, 1, 2, 3, 4]);
    assert_eq!(state.member_positions(None, None, 1, Some(2)), vec![1, 2]);
    assert_eq!(state.member_positions(None, None, 9, None), Vec::<usize>::new());
    let speakers = state.member_positions(None, Some(Role::Speaker), 0, None);
    assert_eq!(speakers.len(), 3);
    assert!(speakers.iter().all(|&p| state.members[p].role == Role::Speaker));
    assert_eq!(state.member_positions(Some(RoomMemberStatus::Left), None, 0, None), Vec::<usize>::new());
}

#[test]
fn changes_and_recent_activity_read_the_timeline() {
    let me = AgentSigner::from_seed([10; 32]);
    let other = AgentSigner::from_seed([11; 32]);
    let state = timeline_state(&me, &other);
    assert_eq!(state.changes_since(Some(4)), vec![4, 5]);
    assert_eq!(state.changes_since(Some(9)), Vec::<usize>::new());
    assert_eq!(state.changes_since(None), vec![0, 1, 2, 3, 4, 5]);
    let mut long = LocalRoomState::new("https://api.example.test".to_owned(), room());
    for seq in 1..=25u64 {
        long.timeline.push(item_in(&me, "room1", seq));
    }
    assert_eq!(long.changes_since(None), (5..25).collect::<Vec<usize>>());
    assert_eq!(state.recent_activity(&other.agent_id(), 10), vec![5, 3, 1]);
    assert_eq!(state.recent_activity(&me.agent_id(), 2), vec![4, 2]);
    assert_eq!(state.recent_activity(&me.agent_id(), 0), Vec::<usize>::new());
}

fn created_room(creator: &AgentSigner) -> RoomResponse {
    let payload = RoomCreatePayload {
        topic: "t".to_owned(),
        agenda: None,
        guidance: None,
        visibility: Visibility::Public,
        start_time: 0,
        end_time: 10,
        tags: Vec::new(),
        language: None,
        policy: None,
        types: Vec::new(),
        extra: Vec::new(),
    };
    let envelope = Envelope {
        hash: "h".to_owned(),
        signature: "s".to_owned(),
        event: Event::new("agent-discourse/1.0", event_type::ROOM_CREATE, creator.agent_id(), 1, 1, payload),
    };
    RoomResponse { envelope: Some(envelope), ..room() }
}

#[test]
fn the_creator_becomes_a_moderator_member_once() {
    let creator = AgentSigner::from_seed([30; 32]);
    let other = AgentSigner::from_seed([31; 32]);
    let mut state = LocalRoomState::new("https://api.example.test".to_owned(), created_room(&creator));
    state.members.push(member(&other, Role::Speaker, false));
    materialize_creator(&mut state);
    assert_eq!(state.members.len(), 2);
    let view = state.members.iter().find(|m| m.agent_id == creator.agent_id()).unwrap();
    assert_eq!(view.role, Role::Moderator);
    assert_eq!(view.status, RoomMemberStatus::Active);
    assert!(view.is_creator);
    assert_eq!(view.joined_seq, Some(1));
    assert_eq!(view.last_event_seq, Some(1));
    let ids: Vec<String> = state.members.iter().map(|m| m.agent_id.as_str().to_owned()).collect();
    let mut sorted = ids.clone();
    sorted.sort();
    assert_eq!(ids, sorted);

    materialize_creator(&mut state);
    assert_eq!(state.members.len(), 2);

    let mut bare = LocalRoomState::new("https://api.example.test".to_owned(), room());
    materialize_creator(&mut bare);
    assert!(bare.members.is_empty());
}

#[test]
fn summaries_take_message_content_or_the_first_reason_given() {
    let long = "x".repeat(200);
    let message = format!("{{\"content\":\"{long}\"}}");
    assert_eq!(summarize_payload("message.create", &message), "x".repeat(160));
    assert_eq!(summarize_payload("message.create", "{\"content\":{\"a\":1}}"), "{\"a\":1}");
    assert_eq!(summarize_payload("message.create", "{\"text\":\"hi\"}"), "message.create");
    assert_eq!(summarize_payload("steer.create", "{\"instruction\":\"go\",\"reason\":\"r\"}"), "go");
    assert_eq!(summarize_payload("turn.update", "{\"intent\":\"speak\"}"), "speak");
    assert_eq!(summarize_payload("poll.close", "{\"instruction\":5,\"reason\":\"r\"}"), "poll.close");
    assert_eq!(summarize_payload("poll.close", "{\"content\":\"c\"}"), "poll.close");
    assert_eq!(summarize_payload("poll.close", "not json"), "poll.close");
}

fn held_message() -> HeldDraftRequest {
    HeldDraftRequest::Message(RoomSendMessageInput {
        room_id: "room1".to_owned(),
        host: None,
        content: "draft".to_owned(),
        content_type: Some("text/plain".to_owned()),
        mentions: Vec::new(),
        references: vec!["e1".to_owned()],
        extra: Vec::new(),
        base_seq: Some(3),
        base_hash: Some("h3".to_owned()),
        on_head_mismatch: HeadMismatchPolicy::Hold,
    })
}

fn commit(action: DraftAction) -> DraftCommitInput {
    DraftCommitInput {
        draft_id: "draft_room1_1".to_owned(),
        action,
        content: None,
        content_type: None,
        mentions: None,
        references: None,
        extra: None,
        event_type: None,
        payload: None,
        base_seq: Some(5),
        base_hash: Some("h5".to_owned()),
        on_head_mismatch: HeadMismatchPolicy::Reject,
    }
}

#[test]
fn committing_a_draft_revises_rebases_or_drops_it() {
    assert!(matches!(plan_draft_commit(held_message(), commit(DraftAction::StaySilent)), DraftCommitStep::Drop));

    let revise = DraftCommitInput { content: Some("revised".to_owned()), ..commit(DraftAction::Revise) };
    match plan_draft_commit(held_message(), revise) {
        DraftCommitStep::Send(HeldDraftRequest::Message(m)) => {
            assert_eq!(m.content, "revised");
            assert_eq!(m.content_type.as_deref(), Some("text/plain"));
            assert_eq!(m.references, vec!["e1".to_owned()]);
            assert_eq!(m.base_seq, Some(5));
            assert_eq!(m.base_hash.as_deref(), Some("h5"));
            assert_eq!(m.on_head_mismatch, HeadMismatchPolicy::Reject);
        }
        _ => panic!("a revision is sent through the head check"),
    }

    match plan_draft_commit(held_message(), commit(DraftAction::SendAsIs)) {
        DraftCommitStep::Send(HeldDraftRequest::Message(m)) => {
            assert_eq!(m.content, "draft");
            assert_eq!(m.base_seq, Some(5));
        }
        _ => panic!("send as is goes through the head check"),
    }

    match plan_draft_commit(held_message(), commit(DraftAction::SendAnyway)) {
        DraftCommitStep::SendUnchecked(HeldDraftRequest::Message(m)) => {
            assert_eq!(m.content, "draft");
            assert_eq!(m.base_seq, None);
            assert_eq!(m.base_hash, None);
            assert_eq!(m.on_head_mismatch, HeadMismatchPolicy::SendAnyway);
        }
        _ => panic!("send anyway skips the head check"),
    }

    let event = HeldDraftRequest::Event(RoomSubmitEventInput {
        room_id: "room1".to_owned(),
        host: None,
        event_type: "poll.vote".to_owned(),
        payload: "{}".to_owned(),
        mentions: Vec::new(),
        references: Vec::new(),
        base_seq: None,
        base_hash: None,
        on_head_mismatch: HeadMismatchPolicy::Hold,
    });
    let revise = DraftCommitInput {
        event_type: Some("poll.close".to_owned()),
        payload: Some("{\"a\":1}".to_owned()),
        content: Some("ignored".to_owned()),
        ..commit(DraftAction::Revise)
    };
    match plan_draft_commit(event, revise) {
        DraftCommitStep::Send(HeldDraftRequest::Event(e)) => {
            assert_eq!(e.event_type, "poll.close");
            assert_eq!(e.payload, "{\"a\":1}");
            assert_eq!(e.base_seq, Some(5));
        }
        _ => panic!("an event revision is sent through the head check"),
    }

    assert!(commit_settles_draft("{\"status\":\"sent\"}"));
    assert!(commit_settles_draft("{\"status\":\"held\"}"));
    assert!(!commit_settles_draft("{\"status\":\"rejected\"}"));
    assert!(!commit_settles_draft("{\"status\":1}"));
    assert!(!commit_settles_draft("not json"));
}

fn held(id: &str, room_id: &str, host: &str) -> HeldDraft {
    let mut current_sync = sync(4, "h4");
    current_sync.host = host.to_owned();
    HeldDraft {
        id: id.to_owned(),
        room_id: room_id.to_owned(),
        kind: HeldDraftKind::Message,
        created_at: 1,
        base_seq: Some(3),
        base_hash: Some("h3".to_owned()),
        current_sync,
        draft: "{}".to_owned(),
        reason: "room_head_mismatch".to_owned(),
        options: held_draft_options(),
    }
}

#[test]
fn held_drafts_are_listed_by_room_and_host_a_page_at_a_time() {
    let drafts = vec![
        held("draft_a_1", "a", "https://one.test"),
        held("draft_a_2", "a", "https://two.test"),
        held("draft_b_1", "b", "https://one.test"),
        held("draft_b_2", "b", "https://one.test"),
    ];
    assert_eq!(draft_page(&drafts, None, None, 0, None), (vec![0, 1, 2, 3], None));
    assert_eq!(draft_page(&drafts, Some("a"), None, 0, None), (vec![0, 1], None));
    assert_eq!(draft_page(&drafts, None, Some("https://one.test//"), 0, None), (vec![0, 2, 3], None));
    assert_eq!(draft_page(&drafts, None, Some("https://one.test"), 0, Some(2)), (vec![0, 2], Some(2)));
    assert_eq!(draft_page(&drafts, None, Some("https://one.test"), 2, Some(2)), (vec![3], None));
    assert_eq!(draft_page(&drafts, Some("b"), Some("https://two.test"), 0, None), (Vec::new(), None));
    assert_eq!(draft_page(&drafts, None, None, 9, Some(1)), (Vec::new(), None));
}

#[test]
fn tool_calls_go_to_the_named_handler() {
    assert_eq!(tool_named(TOOL_ROOM_JOIN).unwrap(), LocalTool::RoomJoin);
    assert_eq!(tool_named(TOOL_ROOM_JOIN_WHEN_APPROVED).unwrap(), LocalTool::RoomJoinWhenApproved);
    assert_eq!(tool_named("agent_protocols_inbox_next").unwrap(), LocalTool::InboxNext);
    assert_eq!(tool_named("agent_protocols_join_request_review").unwrap(), LocalTool::JoinRequestReview);
    match tool_named("agent_protocols_teleport") {
        Err(SdkError::InvalidPayload(m)) => assert_eq!(m, "unknown local connector tool: agent_protocols_teleport"),
        other => panic!("unexpected {other:?}"),
    }
}

#[test]
fn joins_complete_requests_join_public_rooms_and_ask_otherwise() {
    assert_eq!(join_route(&Some("r1".to_owned()), Some(Visibility::Private)), JoinRoute::CompleteRequest);
    assert_eq!(join_route(&None, Some(Visibility::Public)), JoinRoute::JoinPublic);
    assert_eq!(join_route(&None, Some(Visibility::Restricted)), JoinRoute::RequestJoin);
    assert_eq!(join_route(&None, None), JoinRoute::RequestJoin);
}

#[test]
fn opening_a_room_fetches_when_unsynced_or_refreshed() {
    assert_eq!(room_open_fetch(false, 0), Some(None));
    assert_eq!(room_open_fetch(true, 0), Some(None));
    assert_eq!(room_open_fetch(true, 7), Some(Some(7)));
    assert_eq!(room_open_fetch(false, 7), None);
}

#[test]
fn room_fields_fall_back_to_the_create_payload() {
    let creator = AgentSigner::from_seed([30; 32]);
    let bare = room();
    assert_eq!(room_visibility(&bare), None);
    assert_eq!(room_topic(&bare), None);
    assert_eq!(room_start_time(&bare), None);
    let created = created_room(&creator);
    assert_eq!(room_visibility(&created), Some(Visibility::Public));
    assert_eq!(room_topic(&created).as_deref(), Some("t"));
    assert_eq!(room_guidance(&created), None);
    assert_eq!(room_start_time(&created), Some(0));
    assert_eq!(room_end_time(&created), Some(10));
    let served = RoomResponse {
        topic: Some("served".to_owned()),
        visibility: Some(Visibility::Private),
        end_time: Some(99),
        guidance: Some("g".to_owned()),
        ..created_room(&creator)
    };
    assert_eq!(room_topic(&served).as_deref(), Some("served"));
    assert_eq!(room_visibility(&served), Some(Visibility::Private));
    assert_eq!(room_end_time(&served), Some(99));
    assert_eq!(room_guidance(&served).as_deref(), Some("g"));
}

#[test]
fn room_keys_resolve_by_host_or_by_the_one_open_room() {
    let keys = vec![
        ("https://one.test".to_owned(), "a".to_owned()),
        ("https://one.test".to_owned(), "b".to_owned()),
        ("https://two.test".to_owned(), "b".to_owned()),
    ];
    assert_eq!(
        resolve_room_key(&keys, Some("https://three.test/"), "z").unwrap(),
        ("https://three.test".to_owned(), "z".to_owned())
    );
    assert_eq!(resolve_room_key(&keys, None, "a").unwrap(), ("https://one.test".to_owned(), "a".to_owned()));
    match resolve_room_key(&keys, None, "b") {
        Err(SdkError::InvalidPayload(m)) => assert_eq!(m, "room id b matches rooms on more than one host; pass host"),
        other => panic!("unexpected {other:?}"),
    }
    match resolve_room_key(&keys, None, "c") {
        Err(SdkError::InvalidPayload(m)) => assert_eq!(m, "room is not open locally: c"),
        other => panic!("unexpected {other:?}"),
    }
}

#[test]
fn member_profiles_show_name_description_and_avatar() {
    let agent = AgentSigner::from_seed([40; 32]);
    let profile = AgentProfile {
        id: agent.agent_id(),
        name: "Ada".to_owned(),
        description: Some("analyst".to_owned()),
        avatar_url: None,
        provider: Some("p".to_owned()),
        capabilities: vec!["c".to_owned()],
        service_endpoints: Vec::new(),
        links: Vec::new(),
        delegations: Vec::new(),
        extra: Vec::new(),
        updated_at: 3,
        event_id: "e".to_owned(),
    };
    let member = profile_to_member_profile(&profile);
    assert_eq!(member.name.as_deref(), Some("Ada"));
    assert_eq!(member.description.as_deref(), Some("analyst"));
    assert_eq!(member.avatar_url, None);
}

#[test]
fn rooms_are_listed_by_state_and_membership_a_page_at_a_time() {
    let me = AgentSigner::from_seed([50; 32]);
    let mut rooms = Vec::new();
    for (n, status) in [RoomState::Active, RoomState::Ended, RoomState::Active, RoomState::Scheduled].into_iter().enumerate() {
        let mut state = LocalRoomState::new("https://api.example.test".to_owned(), RoomResponse { status, ..room() });
        if n != 2 {
            state.members.push(member(&me, if n == 0 { Role::Moderator } else { Role::Speaker }, n == 0));
        }
        rooms.push(state);
    }
    let id = me.agent_id();
    assert_eq!(room_list_positions(&rooms, &id, None, None, 0, None), vec![0, 1, 2, 3]);
    assert_eq!(room_list_positions(&rooms, &id, Some("active"), None, 0, None), vec![0, 2]);
    assert_eq!(room_list_positions(&rooms, &id, Some("Active"), None, 0, None), Vec::<usize>::new());
    assert_eq!(room_list_positions(&rooms, &id, None, Some(RoomsListMembership::Member), 0, None), vec![0, 1, 3]);
    assert_eq!(room_list_positions(&rooms, &id, Some("active"), Some(RoomsListMembership::Member), 0, None), vec![0]);
    assert_eq!(room_list_positions(&rooms, &id, None, Some(RoomsListMembership::Creator), 0, None), vec![0]);
    assert_eq!(room_list_positions(&rooms, &id, None, None, 1, Some(2)), vec![1, 2]);
}

#[test]
fn join_requests_are_listed_by_status_from_a_cursor() {
    let applicant = AgentSigner::from_seed([60; 32]);
    let requests: Vec<RoomJoinRequestStatus> = [
        JoinRequestStatus::Pending,
        JoinRequestStatus::Approved,
        JoinRequestStatus::Pending,
        JoinRequestStatus::Rejected,
        JoinRequestStatus::Pending,
    ]
    .into_iter()
    .map(|status| join_status(&applicant, status, None))
    .collect();
    assert_eq!(join_request_positions(&requests, None, 0, None), vec![0, 1, 2, 3, 4]);
    assert_eq!(join_request_positions(&requests, Some("pending"), 0, None), vec![0, 2, 4]);
    assert_eq!(join_request_positions(&requests, Some("pending"), 1, None), vec![2, 4]);
    assert_eq!(join_request_positions(&requests, Some("pending"), 1, Some(1)), vec![2]);
    assert_eq!(join_request_positions(&requests, Some("expired"), 0, None), Vec::<usize>::new());
    assert_eq!(join_request_positions(&requests, None, 7, None), Vec::<usize>::new());
}

const CREATE_JSON: &str = "{\"topic\":\"Research room\",\"visibility\":\"public\",\"start_time\":1000,\"end_time\":2000}";

fn signed_record(
    signer: &AgentSigner,
    kind: &str,
    seq: u64,
    pre_hash: Option<String>,
    base: Option<(u64, &str)>,
    payload: &str,
) -> ServerRecord<String> {
    let mut event = if kind == event_type::ROOM_CREATE {
        Event::new(PROTOCOL, kind, signer.agent_id(), 100 + seq as i64, seq, payload.to_owned())
    } else {
        discourse_event(kind, signer.agent_id(), 100 + seq as i64, seq, "room1", payload.to_owned())
    };
    if let Some((base_seq, base_hash)) = base {
        event.extra.push(("base_seq".to_owned(), base_seq.to_string()));
        event.extra.push(("base_hash".to_owned(), format!("\"{base_hash}\"")));
    }
    let envelope = signer.sign_event(event, payload).unwrap();
    build_server_record("room1", seq, pre_hash, 200 + seq as i64, envelope).unwrap()
}

fn timeline_item(record: &ServerRecord<String>) -> TimelineItem {
    TimelineItem {
        room_id: record.room_id.clone(),
        seq: record.seq,
        event_id: record.envelope.hash.clone(),
        event_type: record.envelope.event.kind.clone(),
        kind: timeline_kind(&record.envelope.event.kind),
        actor: record.envelope.event.actor.clone(),
        created_at: record.envelope.event.created_at,
        received_at: record.received_at,
        summary: String::new(),
        content_type: None,
        content: None,
        mentions: Vec::new(),
        references: Vec::new(),
        payload: record.envelope.event.payload.clone(),
    }
}

#[test]
fn applied_records_advance_the_head_unless_they_are_signals() {
    let creator = AgentSigner::from_seed([70; 32]);
    let speaker = AgentSigner::from_seed([71; 32]);
    let me = creator.agent_id();
    let mut room = LocalRoomState::new("https://api.example.test".to_owned(), room());
    room.room.types.push(TypeDef { kind: TypeKind::Signal, ..object_def("reaction.create") });
    let mut inbox = Vec::new();

    let create = signed_record(&creator, event_type::ROOM_CREATE, 1, None, None, CREATE_JSON);
    let h1 = create.hash.clone();
    let item = timeline_item(&create);
    apply_record_to(&mut room, create, ProjectionPayload::Raw, item, &me, &mut inbox).unwrap();
    assert_eq!(room.head_seq, 1);
    assert_eq!(room.head_hash.as_deref(), Some(h1.as_str()));
    assert_eq!(room.synced_seq, 1);
    assert_eq!(room.records.len(), 1);
    assert_eq!(room.timeline.len(), 1);

    let join_json = "{\"request_id\":\"r1\",\"role\":\"speaker\"}";
    let join = signed_record(&speaker, event_type::ROOM_JOIN, 2, Some(h1.clone()), Some((1, &h1)), join_json);
    let h2 = join.hash.clone();
    let item = timeline_item(&join);
    let payload = ProjectionPayload::RoomJoin(RoomJoinPayload { request_id: "r1".to_owned(), role: Role::Speaker });
    apply_record_to(&mut room, join, payload, item, &me, &mut inbox).unwrap();
    assert_eq!(room.head_seq, 1, "a membership signal does not advance the head");
    assert_eq!(room.head_hash.as_deref(), Some(h1.as_str()));
    assert_eq!(room.synced_seq, 2);
    assert_eq!(room.synced_hash.as_deref(), Some(h2.as_str()));
    assert!(room.members.iter().any(|m| m.agent_id == speaker.agent_id()));

    let again = signed_record(&speaker, event_type::ROOM_JOIN, 2, Some(h1.clone()), Some((1, &h1)), join_json);
    let item = timeline_item(&again);
    let payload = ProjectionPayload::RoomJoin(RoomJoinPayload { request_id: "r1".to_owned(), role: Role::Speaker });
    apply_record_to(&mut room, again, payload, item, &me, &mut inbox).unwrap();
    assert_eq!(room.records.len(), 2, "a record the room holds changes nothing");

    let reaction = signed_record(&speaker, "reaction.create", 3, Some(h2.clone()), Some((1, &h1)), "{}");
    let h3 = reaction.hash.clone();
    let item = timeline_item(&reaction);
    apply_record_to(&mut room, reaction, ProjectionPayload::Raw, item, &me, &mut inbox).unwrap();
    assert_eq!(room.head_seq, 1, "a signal-kind record only anchors");
    assert_eq!(room.synced_seq, 3);

    let stale_json = "{\"content_type\":\"text/plain\",\"content\":\"late\"}";
    let stale = signed_record(&speaker, event_type::MESSAGE_CREATE, 4, Some(h3.clone()), Some((3, &h3)), stale_json);
    let item = timeline_item(&stale);
    match apply_record_to(&mut room, stale, ProjectionPayload::Raw, item, &me, &mut inbox) {
        Err(SdkError::InvalidPayload(m)) => assert_eq!(m, "record base_seq/base_hash must match current room head"),
        other => panic!("unexpected {other:?}"),
    }
    assert_eq!(room.synced_seq, 3, "a refused record changes nothing");

    let unbased = signed_record(&speaker, event_type::MESSAGE_CREATE, 4, Some(h3.clone()), None, stale_json);
    let item = timeline_item(&unbased);
    match apply_record_to(&mut room, unbased, ProjectionPayload::Raw, item, &me, &mut inbox) {
        Err(SdkError::InvalidPayload(m)) => assert_eq!(m, "record event requires base_seq"),
        other => panic!("unexpected {other:?}"),
    }

    let gap = signed_record(&speaker, event_type::MESSAGE_CREATE, 5, Some(h3.clone()), Some((1, &h1)), stale_json);
    let item = timeline_item(&gap);
    match apply_record_to(&mut room, gap, ProjectionPayload::Raw, item, &me, &mut inbox) {
        Err(SdkError::InvalidPayload(m)) => assert_eq!(m, "record seq must continue local chain"),
        other => panic!("unexpected {other:?}"),
    }

    let message = signed_record(&speaker, event_type::MESSAGE_CREATE, 4, Some(h3.clone()), Some((1, &h1)), stale_json);
    let h4 = message.hash.clone();
    let item = timeline_item(&message);
    apply_record_to(&mut room, message, ProjectionPayload::Raw, item, &me, &mut inbox).unwrap();
    assert_eq!(room.head_seq, 4);
    assert_eq!(room.head_hash.as_deref(), Some(h4.as_str()));
    assert_eq!(room.timeline.len(), 4);

    let mut forged = signed_record(&speaker, event_type::MESSAGE_CREATE, 5, Some(h4.clone()), Some((4, &h4)), stale_json);
    forged.hash = "forged".to_owned();
    let item = timeline_item(&forged);
    assert!(apply_record_to(&mut room, forged, ProjectionPayload::Raw, item, &me, &mut inbox).is_err());
    assert_eq!(room.synced_seq, 4);
}

#[test]
fn head_rule_follows_builtin_classes_and_room_types() {
    let mut room = LocalRoomState::new("https://api.example.test".to_owned(), room());
    room.room.types.push(TypeDef { kind: TypeKind::Signal, ..object_def("reaction.create") });
    room.room.types.push(object_def("poll.vote"));
    assert!(event_type_advances_room_head(&room, "room.create"));
    assert!(event_type_advances_room_head(&room, "room.update"));
    assert!(event_type_advances_room_head(&room, "message.create"));
    assert!(event_type_advances_room_head(&room, "type.define"));
    assert!(!event_type_advances_room_head(&room, "room.join"));
    assert!(!event_type_advances_room_head(&room, "room.member.remove"));
    assert!(!event_type_advances_room_head(&room, "reaction.create"));
    assert!(event_type_advances_room_head(&room, "poll.vote"));
    assert!(event_type_advances_room_head(&room, "unknown.kind"));
    let creator = AgentSigner::from_seed([72; 32]);
    let create = signed_record(&creator, event_type::ROOM_CREATE, 1, None, None, CREATE_JSON);
    assert!(validate_record_base_precondition(&room, &create).is_ok());
}

#[test]
fn removals_mark_members_and_bans_add_observers() {
    let me = AgentSigner::from_seed([80; 32]);
    let moderator = AgentSigner::from_seed([81; 32]);
    let stranger = AgentSigner::from_seed([82; 32]);
    let mut state = LocalRoomState::new("https://api.example.test".to_owned(), room());
    state.members.push(member(&me, Role::Speaker, false));
    let mut inbox = Vec::new();

    let remove = kind_record(&moderator, 5, ROOM_MEMBER_REMOVE, "{}");
    let payload = ProjectionPayload::MemberRemove(RoomMemberRemovePayload::new(me.agent_id()));
    apply_record_projection(&mut state, &remove, payload, &item_with(&moderator, 5, "{}"), &me.agent_id(), &mut inbox)
        .unwrap();
    assert_eq!(state.members[0].status, RoomMemberStatus::Removed);
    assert_eq!(state.members[0].left_seq, Some(5));
    assert_eq!(state.members[0].role, Role::Speaker);
    assert_eq!(inbox.len(), 1);
    assert_eq!(inbox[0].kind, InboxKind::RoomMemberRemoved);
    assert_eq!(inbox[0].priority, InboxPriority::High);

    let ban = kind_record(&moderator, 6, ROOM_MEMBER_REMOVE, "{}");
    let payload = ProjectionPayload::MemberRemove(RoomMemberRemovePayload {
        ban: Some(true),
        reason: Some("spam".to_owned()),
        ..RoomMemberRemovePayload::new(stranger.agent_id())
    });
    apply_record_projection(&mut state, &ban, payload, &item_with(&moderator, 6, "{}"), &me.agent_id(), &mut inbox)
        .unwrap();
    let banned = state.members.iter().find(|m| m.agent_id == stranger.agent_id()).unwrap();
    assert_eq!(banned.status, RoomMemberStatus::Banned);
    assert_eq!(banned.role, Role::Observer);
    assert_eq!(banned.joined_seq, None);
    assert_eq!(inbox.len(), 1, "another agent's ban raises nothing for this agent");

    let bad = kind_record(&moderator, 7, ROOM_MEMBER_REMOVE, "{}");
    let result = apply_record_projection(
        &mut state,
        &bad,
        ProjectionPayload::Malformed("missing field `member`".to_owned()),
        &item_with(&moderator, 7, "{}"),
        &me.agent_id(),
        &mut inbox,
    );
    assert!(matches!(result, Err(SdkError::Json(_))));
}

#[test]
fn room_updates_revise_the_contract_and_start_scheduled_rooms() {
    let me = AgentSigner::from_seed([83; 32]);
    let moderator = AgentSigner::from_seed([84; 32]);
    let mut state = LocalRoomState::new(
        "https://api.example.test".to_owned(),
        RoomResponse { status: RoomState::Scheduled, guidance: Some("old".to_owned()), ..room() },
    );
    let mut inbox = Vec::new();
    let update = kind_record(&moderator, 2, ROOM_UPDATE, "{}");
    let payload = ProjectionPayload::RoomUpdate(RoomUpdatePayload {
        topic: Some("New topic".to_owned()),
        agenda: None,
        guidance: Some(String::new()),
        tags: None,
        language: None,
        policy: None,
        start_time: Some(1),
        end_time: Some(99),
    });
    apply_record_projection(&mut state, &update, payload, &item_with(&moderator, 2, "{}"), &me.agent_id(), &mut inbox)
        .unwrap();
    assert_eq!(state.room.topic.as_deref(), Some("New topic"));
    assert_eq!(state.room.guidance, None);
    assert_eq!(state.room.start_time, Some(1));
    assert_eq!(state.room.end_time, Some(99));
    assert_eq!(state.room.status, RoomState::Active);
    assert_eq!(inbox.len(), 1);
    assert_eq!(inbox[0].kind, InboxKind::RoomStateChanged);
}

#[test]
fn held_drafts_are_found_by_id_and_dropped_with_an_answer() {
    let drafts = vec![held("draft_a_1", "a", "https://one.test"), held("draft_a_2", "a", "https://one.test")];
    assert_eq!(find_draft(&drafts, "draft_a_2").unwrap(), 1);
    match find_draft(&drafts, "draft_b_1") {
        Err(SdkError::InvalidPayload(m)) => assert_eq!(m, "draft not found"),
        other => panic!("unexpected {other:?}"),
    }
    let answer: serde_json::Value = serde_json::from_str(&dropped_result("draft_a_1")).unwrap();
    let expected: serde_json::Value = serde_json::from_str("{\"status\":\"dropped\",\"draft_id\":\"draft_a_1\"}").unwrap();
    assert_eq!(answer, expected);
}
