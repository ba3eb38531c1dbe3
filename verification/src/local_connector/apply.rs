//! Applying an accepted server record to a local room: the checks that gate
//! it, the room-head rule, and the changes it makes.
//!
//! Room lifecycle, `message`-kind and `control`-kind records advance the room
//! head. `signal`-kind records, the built-in membership events among them,
//! only anchor to an accepted record and never advance or contend for it.

use vstd::prelude::*;

use crate::codec::{json_quote, json_string_literal};
use crate::discourse::records::record_failure;
use crate::discourse::{
    discourse_envelope_failure, event_type, room_path_failure, validate_discourse_envelope, validate_room_path,
    verify_server_record, ServerRecord, TypeDef, TypeKind,
};
use crate::error::{fails_with, invalid_payload, ErrorView, Result, SdkError};
use crate::identity::{parse_u64, parsed_u64, AgentId};
use crate::text::str_eq;

use super::projection::{
    apply_record_projection, payload_fits, payload_required, projection_applied, ProjectionPayload, ROOM_MEMBER_REMOVE,
    ROOM_UPDATE,
};
use super::state::{
    duplicate_record, is_duplicate_record, local_chain_failure, validate_next_record, LocalRoomState,
};
use super::views::{InboxItem, TimelineItem};

verus! {

/// How a built-in event type weighs on the room head.
#[derive(Clone, Copy, Debug, PartialEq, Eq, Structural)]
pub enum BuiltinEventClass {
    Lifecycle,
    Message,
    Control,
    Signal,
}

/// The class of a built-in event type: room lifecycle events, messages, type
/// definitions as control, and the membership events as signals.
pub open spec fn builtin_class_of(t: Seq<char>) -> Option<BuiltinEventClass> {
    if t == event_type::ROOM_CREATE@ || t == event_type::ROOM_CLOSE@ || t == event_type::ROOM_CANCEL@
        || t == ROOM_UPDATE@ {
        Some(BuiltinEventClass::Lifecycle)
    } else if t == event_type::MESSAGE_CREATE@ {
        Some(BuiltinEventClass::Message)
    } else if t == event_type::TYPE_DEFINE@ {
        Some(BuiltinEventClass::Control)
    } else if t == event_type::ROOM_JOIN@ || t == event_type::ROOM_LEAVE@ || t == event_type::ROOM_JOIN_REVIEW@
        || t == event_type::ROOM_MEMBER_ROLE_UPDATE@ || t == ROOM_MEMBER_REMOVE@ {
        Some(BuiltinEventClass::Signal)
    } else {
        None
    }
}

/// Gives the class of a built-in event type.
pub fn builtin_event_class(t: &str) -> (class: Option<BuiltinEventClass>)
    ensures
        class == builtin_class_of(t@),
{
    if str_eq(t, event_type::ROOM_CREATE) || str_eq(t, event_type::ROOM_CLOSE) || str_eq(t, event_type::ROOM_CANCEL)
        || str_eq(t, ROOM_UPDATE) {
        Some(BuiltinEventClass::Lifecycle)
    } else if str_eq(t, event_type::MESSAGE_CREATE) {
        Some(BuiltinEventClass::Message)
    } else if str_eq(t, event_type::TYPE_DEFINE) {
        Some(BuiltinEventClass::Control)
    } else if str_eq(t, event_type::ROOM_JOIN) || str_eq(t, event_type::ROOM_LEAVE) || str_eq(
        t,
        event_type::ROOM_JOIN_REVIEW,
    ) || str_eq(t, event_type::ROOM_MEMBER_ROLE_UPDATE) || str_eq(t, ROOM_MEMBER_REMOVE) {
        Some(BuiltinEventClass::Signal)
    } else {
        None
    }
}

/// The kind of the first room type definition named `name`, if any.
pub open spec fn defined_kind(types: Seq<TypeDef>, name: Seq<char>) -> Option<TypeKind>
    decreases types.len(),
{
    if types.len() == 0 {
        None
    } else if types[0].name@ == name {
        Some(types[0].kind)
    } else {
        defined_kind(types.drop_first(), name)
    }
}

/// Whether a record of `event_type` advances the room head: a built-in by its
/// class, a room type unless it is a signal, and an unknown type as well.
pub open spec fn advances_head(types: Seq<TypeDef>, event_type: Seq<char>) -> bool {
    match builtin_class_of(event_type) {
        Some(class) => class != BuiltinEventClass::Signal,
        None => match defined_kind(types, event_type) {
            Some(kind) => kind != TypeKind::Signal,
            None => true,
        },
    }
}

/// Whether the record advances the head of `room`.
pub open spec fn record_advances_room_head(room: LocalRoomState, record: ServerRecord<String>) -> bool {
    advances_head(room.room.types@, record.envelope.event.kind@)
}

/// Tells whether a record of `event_type` advances the head of `room`.
pub fn event_type_advances_room_head(room: &LocalRoomState, event_type: &str) -> (r: bool)
    ensures
        r == advances_head(room.room.types@, event_type@),
{
    match builtin_event_class(event_type) {
        Some(class) => class != BuiltinEventClass::Signal,
        None => {
            let types = &room.room.types;
            let mut i: usize = 0;
            assert(types@.skip(0) =~= types@);
            while i < types.len()
                invariant
                    i <= types@.len(),
                    types@ == room.room.types@,
                    builtin_class_of(event_type@) is None,
                    defined_kind(types@, event_type@) == defined_kind(types@.skip(i as int), event_type@),
                decreases types@.len() - i,
            {
                assert(types@.skip(i as int).drop_first() =~= types@.skip(i + 1));
                assert(types@.skip(i as int)[0] == types@[i as int]);
                if str_eq(types[i].name.as_str(), event_type) {
                    assert(defined_kind(types@.skip(i as int), event_type@) == Some(types@[i as int].kind));
                    let kind = types[i].kind;
                    return !(kind == TypeKind::Signal);
                }
                i += 1;
            }
            true
        },
    }
}

/// The JSON text of the first member `key` among an event's further members.
pub open spec fn extra_lookup(extra: Seq<(String, String)>, key: Seq<char>) -> Option<Seq<char>>
    decreases extra.len(),
{
    if extra.len() == 0 {
        None
    } else if extra[0].0@ == key {
        Some(extra[0].1@)
    } else {
        extra_lookup(extra.drop_first(), key)
    }
}

/// Finds the JSON text of the further member `key` of an event.
pub fn extra_value<'a>(extra: &'a Vec<(String, String)>, key: &str) -> (r: Option<&'a String>)
    ensures
        match r {
            Some(t) => extra_lookup(extra@, key@) == Some(t@),
            None => extra_lookup(extra@, key@) is None,
        },
{
    let mut i: usize = 0;
    assert(extra@.skip(0) =~= extra@);
    while i < extra.len()
        invariant
            i <= extra@.len(),
            extra_lookup(extra@, key@) == extra_lookup(extra@.skip(i as int), key@),
        decreases extra@.len() - i,
    {
        assert(extra@.skip(i as int).drop_first() =~= extra@.skip(i + 1));
        assert(extra@.skip(i as int)[0] == extra@[i as int]);
        if str_eq(extra[i].0.as_str(), key) {
            return Some(&extra[i].1);
        }
        i += 1;
    }
    None
}

/// The base sequence number an event declares: its `base_seq` member read as
/// an unsigned integer.
pub open spec fn declared_base_seq(extra: Seq<(String, String)>) -> Option<u64> {
    match extra_lookup(extra, "base_seq"@) {
        Some(text) => parsed_u64(text),
        None => None,
    }
}

/// Why a record's declared base does not admit it to `room`, if it does not.
/// A `room.create` has no base. Every other record must declare `base_seq`
/// and `base_hash`, below its own sequence number; a record that advances the
/// head must be based on the current head.
pub open spec fn base_failure(room: LocalRoomState, record: ServerRecord<String>) -> Option<ErrorView> {
    let event = record.envelope.event;
    if event.kind@ == event_type::ROOM_CREATE@ {
        None
    } else {
        match declared_base_seq(event.extra@) {
            None => Some(invalid_payload("record event requires base_seq"@)),
            Some(base_seq) => match extra_lookup(event.extra@, "base_hash"@) {
                None => Some(invalid_payload("record event requires base_hash"@)),
                Some(base_hash) => if base_seq >= record.seq {
                    Some(invalid_payload("record base_seq must reference an earlier accepted record"@))
                } else if !record_advances_room_head(room, record) {
                    None
                } else if room.head_seq != base_seq || !(room.head_hash matches Some(h) && json_string_literal(h@)
                    == base_hash) {
                    Some(invalid_payload("record base_seq/base_hash must match current room head"@))
                } else {
                    None
                },
            },
        }
    }
}

/// Checks that a record's declared base admits it to the room.
pub fn validate_record_base_precondition(room: &LocalRoomState, record: &ServerRecord<String>) -> (res: Result<()>)
    ensures
        fails_with(res, base_failure(*room, *record)),
{
    let event = &record.envelope.event;
    if str_eq(event.kind.as_str(), event_type::ROOM_CREATE) {
        return Ok(());
    }
    let base_seq = match extra_value(&event.extra, "base_seq") {
        Some(text) => parse_u64(text.as_str()),
        None => None,
    };
    let base_seq = match base_seq {
        Some(n) => n,
        None => {
            return Err(SdkError::InvalidPayload("record event requires base_seq".to_owned()));
        },
    };
    let base_hash = match extra_value(&event.extra, "base_hash") {
        Some(text) => text,
        None => {
            return Err(SdkError::InvalidPayload("record event requires base_hash".to_owned()));
        },
    };
    if base_seq >= record.seq {
        return Err(
            SdkError::InvalidPayload("record base_seq must reference an earlier accepted record".to_owned()),
        );
    }
    if !event_type_advances_room_head(room, event.kind.as_str()) {
        return Ok(());
    }
    let matches_head = match &room.head_hash {
        Some(h) => {
            let quoted = json_quote(h.as_str());
            str_eq(quoted.as_str(), base_hash.as_str())
        },
        None => false,
    };
    if room.head_seq != base_seq || !matches_head {
        return Err(SdkError::InvalidPayload("record base_seq/base_hash must match current room head".to_owned()));
    }
    Ok(())
}

/// Why a record is not applied to a room, if it is not: the envelope, the
/// record's room path, the record's hash, then (unless it is a record the
/// room already holds) the local chain, the declared base, and the payload
/// the projection needs.
pub open spec fn apply_failure(room: LocalRoomState, record: ServerRecord<String>, payload: ProjectionPayload) -> Option<
    ErrorView,
> {
    let envelope = record.envelope;
    if discourse_envelope_failure(envelope, envelope.event.payload@) is Some {
        discourse_envelope_failure(envelope, envelope.event.payload@)
    } else if room_path_failure(envelope, record.room_id@) is Some {
        room_path_failure(envelope, record.room_id@)
    } else if record_failure(record) is Some {
        record_failure(record)
    } else if duplicate_record(room, record) {
        None
    } else if local_chain_failure(room.synced_seq, crate::text::opt_view(room.synced_hash), record) is Some {
        local_chain_failure(room.synced_seq, crate::text::opt_view(room.synced_hash), record)
    } else if base_failure(room, record) is Some {
        base_failure(room, record)
    } else {
        match payload {
            ProjectionPayload::Malformed(message) => if payload_required(envelope.event.kind@) {
                Some(ErrorView::Json(message@))
            } else {
                None
            },
            _ => None,
        }
    }
}

/// A new record applied: the projection's changes, the head advanced to the
/// record exactly when it advances the (projected) room's head, the synced
/// position moved to the record, and the record and its timeline item
/// appended.
pub open spec fn record_applied(
    before: LocalRoomState,
    after: LocalRoomState,
    inbox_before: Seq<InboxItem>,
    inbox_after: Seq<InboxItem>,
    record: ServerRecord<String>,
    payload: ProjectionPayload,
    item: TimelineItem,
    agent: Seq<char>,
) -> bool {
    exists|mid: LocalRoomState|
        #[trigger] projection_applied(before, mid, inbox_before, inbox_after, record, payload, item, agent) && {
            let advances = record_advances_room_head(mid, record);
            &&& after == LocalRoomState {
                head_seq: if advances { record.seq } else { mid.head_seq },
                head_hash: if advances { Some(record.hash) } else { mid.head_hash },
                synced_seq: record.seq,
                synced_hash: Some(record.hash),
                records: after.records,
                timeline: after.timeline,
                ..mid
            }
            &&& after.records@ == mid.records@.push(record)
            &&& after.timeline@ == mid.timeline@.push(item)
        }
}

/// Applies an accepted record to the local room: checks its envelope, room
/// path, hash, the local chain and its declared base, then projects it,
/// advances the head unless it is a signal, and appends it and its timeline
/// item. A record the room already holds changes nothing.
pub fn apply_record_to(
    room: &mut LocalRoomState,
    record: ServerRecord<String>,
    payload: ProjectionPayload,
    item: TimelineItem,
    active_agent: &AgentId,
    inbox: &mut Vec<InboxItem>,
) -> (res: Result<()>)
    requires
        payload_fits(record.envelope.event.kind@, payload),
    ensures
        fails_with(res, apply_failure(*old(room), record, payload)),
        res is Err ==> *final(room) == *old(room) && final(inbox)@ == old(inbox)@,
        res is Ok && duplicate_record(*old(room), record) ==> *final(room) == *old(room) && final(inbox)@
            == old(inbox)@,
        res is Ok && !duplicate_record(*old(room), record) ==> record_applied(
            *old(room),
            *final(room),
            old(inbox)@,
            final(inbox)@,
            record,
            payload,
            item,
            active_agent@,
        ),
        duplicate_record(*old(room), record) && discourse_envelope_failure(record.envelope, record.envelope.event.payload@)
            is None && room_path_failure(record.envelope, record.room_id@) is None && record_failure(record) is None
            ==> res is Ok,
        res is Ok && !duplicate_record(*old(room), record) ==> {
            &&& final(room).synced_seq == record.seq
            &&& final(room).synced_hash == Some(record.hash)
            &&& final(room).records@ == old(room).records@.push(record)
            &&& final(room).timeline@ == old(room).timeline@.push(item)
            &&& final(room).head_seq == if record_advances_room_head(*old(room), record) {
                record.seq
            } else {
                old(room).head_seq
            }
            &&& final(room).head_hash == if record_advances_room_head(*old(room), record) {
                Some(record.hash)
            } else {
                old(room).head_hash
            }
        },
{
    validate_discourse_envelope(&record.envelope, record.envelope.event.payload.as_str())?;
    validate_room_path(&record.envelope, record.room_id.as_str())?;
    verify_server_record(&record)?;
    if is_duplicate_record(room, &record) {
        return Ok(());
    }
    validate_next_record(room, &record)?;
    validate_record_base_precondition(room, &record)?;
    let ghost before = *room;
    let ghost spec_payload = payload;
    apply_record_projection(room, &record, payload, &item, active_agent, inbox)?;
    let ghost mid = *room;
    assert(projection_applied(before, mid, old(inbox)@, inbox@, record, spec_payload, item, active_agent@));
    proof {
        lemma_projection_keeps_the_head_rule(before, mid, old(inbox)@, inbox@, record, spec_payload, item, active_agent@);
    }
    if event_type_advances_room_head(room, record.envelope.event.kind.as_str()) {
        room.head_seq = record.seq;
        room.head_hash = Some(record.hash.clone());
    }
    room.synced_seq = record.seq;
    room.synced_hash = Some(record.hash.clone());
    room.records.push(record);
    room.timeline.push(item);
    Ok(())
}

/// Projecting a record keeps the room's head, synced position, records and
/// timeline, and whether the record advances the head.
proof fn lemma_projection_keeps_the_head_rule(
    before: LocalRoomState,
    mid: LocalRoomState,
    inbox_before: Seq<InboxItem>,
    inbox_after: Seq<InboxItem>,
    record: ServerRecord<String>,
    payload: ProjectionPayload,
    item: TimelineItem,
    agent: Seq<char>,
)
    requires
        projection_applied(before, mid, inbox_before, inbox_after, record, payload, item, agent),
    ensures
        mid.head_seq == before.head_seq,
        mid.head_hash == before.head_hash,
        mid.records == before.records,
        mid.timeline == before.timeline,
        record_advances_room_head(mid, record) == record_advances_room_head(before, record),
{
    if record.envelope.event.kind@ != event_type::TYPE_DEFINE@ {
        assert(mid.room.types == before.room.types);
    }
}

/// Signal records only anchor: applying one leaves the room head where it
/// was, while the synced position moves to the record.
pub proof fn lemma_signal_records_keep_the_head(
    before: LocalRoomState,
    after: LocalRoomState,
    inbox_before: Seq<InboxItem>,
    inbox_after: Seq<InboxItem>,
    record: ServerRecord<String>,
    payload: ProjectionPayload,
    item: TimelineItem,
    agent: Seq<char>,
)
    requires
        record_applied(before, after, inbox_before, inbox_after, record, payload, item, agent),
        !record_advances_room_head(after, record),
    ensures
        after.head_seq == before.head_seq,
        after.head_hash == before.head_hash,
        after.synced_seq == record.seq,
        after.synced_hash == Some(record.hash),
{
    let mid = choose|mid: LocalRoomState|
        #[trigger] projection_applied(before, mid, inbox_before, inbox_after, record, payload, item, agent) && {
            let advances = record_advances_room_head(mid, record);
            &&& after == LocalRoomState {
                head_seq: if advances { record.seq } else { mid.head_seq },
                head_hash: if advances { Some(record.hash) } else { mid.head_hash },
                synced_seq: record.seq,
                synced_hash: Some(record.hash),
                records: after.records,
                timeline: after.timeline,
                ..mid
            }
            &&& after.records@ == mid.records@.push(record)
            &&& after.timeline@ == mid.timeline@.push(item)
        };
    assert(mid.room.types == after.room.types);
    assert(mid.head_seq == before.head_seq && mid.head_hash == before.head_hash);
}

/// Signal records never contend for the head: whether one is admitted does
/// not depend on the room head at all.
pub proof fn lemma_signal_records_ignore_the_head(
    room: LocalRoomState,
    record: ServerRecord<String>,
    head_seq: u64,
    head_hash: Option<String>,
)
    requires
        !record_advances_room_head(room, record),
    ensures
        base_failure(room, record) == base_failure(LocalRoomState { head_seq, head_hash, ..room }, record),
{
}

} // verus!
