//! The room state the connector projects accepted records into, and the
//! local-chain rules that gate them.

use vstd::prelude::*;

use crate::discourse::{Role, RoomResponse, RoomState, ServerRecord};
use crate::identity::AgentId;
use crate::codec::{decimal, u64_decimal};
use crate::error::{fails_with, invalid_payload, ErrorView, Result, SdkError};
use crate::text::{blank, is_blank, push_str, opt_str, opt_view, str_eq, trim_end_char, trim_end_matches_char};

use super::queries::{flagged, page, page_of_flags};
use super::views::{ActiveTurn, DraftAction, InboxItem, RoomMemberView, SyncState, TimelineItem};

verus! {

/// One room as the connector knows it. Records carry their payloads as JSON
/// text.
pub struct LocalRoomState {
    pub host: String,
    pub room: RoomResponse,
    pub head_seq: u64,
    pub head_hash: Option<String>,
    pub synced_seq: u64,
    pub synced_hash: Option<String>,
    pub subscribed: bool,
    /// One view per member agent.
    pub members: Vec<RoomMemberView>,
    pub timeline: Vec<TimelineItem>,
    pub records: Vec<ServerRecord<String>>,
    pub read_seq: u64,
    pub active_turn: Option<ActiveTurn>,
}

/// The number of timeline items after `read_seq`.
pub open spec fn unread_in(timeline: Seq<TimelineItem>, read_seq: u64) -> nat
    decreases timeline.len(),
{
    if timeline.len() == 0 {
        0
    } else {
        unread_in(timeline.drop_last(), read_seq) + if timeline.last().seq > read_seq { 1nat } else { 0nat }
    }
}

proof fn lemma_unread_bounded(timeline: Seq<TimelineItem>, read_seq: u64)
    ensures
        unread_in(timeline, read_seq) <= timeline.len(),
    decreases timeline.len(),
{
    if timeline.len() > 0 {
        lemma_unread_bounded(timeline.drop_last(), read_seq);
    }
}

impl LocalRoomState {
    pub fn new(host: String, room: RoomResponse) -> (state: Self)
        ensures
            state.host == host,
            state.room == room,
            state.head_seq == 0,
            state.head_hash is None,
            state.synced_seq == 0,
            state.synced_hash is None,
            !state.subscribed,
            state.members@.len() == 0,
            state.timeline@.len() == 0,
            state.records@.len() == 0,
            state.read_seq == 0,
            state.active_turn is None,
    {
        LocalRoomState {
            host,
            room,
            head_seq: 0,
            head_hash: None,
            synced_seq: 0,
            synced_hash: None,
            subscribed: false,
            members: Vec::new(),
            timeline: Vec::new(),
            records: Vec::new(),
            read_seq: 0,
            active_turn: None,
        }
    }

    /// The number of timeline items after the read mark.
    pub fn unread_count(&self) -> (n: usize)
        ensures
            n == unread_in(self.timeline@, self.read_seq),
    {
        let mut n: usize = 0;
        let mut i: usize = 0;
        while i < self.timeline.len()
            invariant
                i <= self.timeline@.len(),
                n == unread_in(self.timeline@.take(i as int), self.read_seq),
            decreases self.timeline@.len() - i,
        {
            proof {
                assert(self.timeline@.take(i + 1).drop_last() =~= self.timeline@.take(i as int));
                lemma_unread_bounded(self.timeline@.take(i as int), self.read_seq);
            }
            if self.timeline[i].seq > self.read_seq {
                n += 1;
            }
            i += 1;
        }
        assert(self.timeline@.take(self.timeline@.len() as int) =~= self.timeline@);
        n
    }
}

/// Which rooms a room listing keeps, by the listing agent's membership.
#[derive(Clone, Copy, Debug, PartialEq, Eq, Structural)]
pub enum RoomsListMembership {
    Member,
    Creator,
    Moderator,
    Pending,
    All,
}

/// `i` is the first position of a member view for `agent`.
pub open spec fn first_member_at(members: Seq<RoomMemberView>, agent: Seq<char>, i: int) -> bool {
    &&& 0 <= i < members.len()
    &&& members[i].agent_id@ == agent
    &&& forall|j: int| 0 <= j < i ==> members[j].agent_id@ != agent
}

/// Whether a room whose member views are `members` is kept for `agent`
/// under `membership` (none keeps every room).
pub open spec fn membership_matches(
    members: Seq<RoomMemberView>,
    agent: Seq<char>,
    membership: Option<RoomsListMembership>,
) -> bool {
    match membership {
        None | Some(RoomsListMembership::All) => true,
        Some(RoomsListMembership::Member) => exists|i: int| #[trigger] first_member_at(members, agent, i),
        Some(RoomsListMembership::Creator) => exists|i: int|
            #[trigger] first_member_at(members, agent, i) && members[i].is_creator,
        Some(RoomsListMembership::Moderator) => exists|i: int|
            #[trigger] first_member_at(members, agent, i) && members[i].role == Role::Moderator,
        Some(RoomsListMembership::Pending) => false,
    }
}

/// The position of the first member view for `agent`, if any.
pub open spec fn member_position(members: Seq<RoomMemberView>, agent: Seq<char>) -> Option<int> {
    if exists|i: int| first_member_at(members, agent, i) {
        Some(choose|i: int| first_member_at(members, agent, i))
    } else {
        None
    }
}

/// An agent has at most one first position.
pub proof fn lemma_first_member_unique(members: Seq<RoomMemberView>, agent: Seq<char>, i: int, k: int)
    requires
        first_member_at(members, agent, i),
        first_member_at(members, agent, k),
    ensures
        i == k,
{
    if i < k {
        assert(members[i].agent_id@ != agent);
    } else if k < i {
        assert(members[k].agent_id@ != agent);
    }
}

/// The position of the first member view for `agent`, if any.
pub(crate) fn find_member(members: &Vec<RoomMemberView>, agent: &AgentId) -> (r: Option<usize>)
    ensures
        match r {
            Some(i) => first_member_at(members@, agent@, i as int),
            None => forall|j: int| 0 <= j < members@.len() ==> members@[j].agent_id@ != agent@,
        },
        match r {
            Some(i) => member_position(members@, agent@) == Some(i as int),
            None => member_position(members@, agent@) is None,
        },
{
    let mut i: usize = 0;
    while i < members.len()
        invariant
            i <= members@.len(),
            forall|j: int| 0 <= j < i ==> members@[j].agent_id@ != agent@,
        decreases members@.len() - i,
    {
        if members[i].agent_id == *agent {
            proof {
                assert(first_member_at(members@, agent@, i as int));
                let k = choose|k: int| first_member_at(members@, agent@, k);
                lemma_first_member_unique(members@, agent@, i as int, k);
            }
            return Some(i);
        }
        i += 1;
    }
    None
}

/// Whether the room `room` is kept for `agent` in a listing filtered by
/// `membership`.
pub fn membership_filter(room: &LocalRoomState, agent_id: &AgentId, membership: Option<RoomsListMembership>) -> (r: bool)
    ensures
        r == membership_matches(room.members@, agent_id@, membership),
{
    let wanted = match membership {
        Some(m) => m,
        None => RoomsListMembership::All,
    };
    match wanted {
        RoomsListMembership::All => true,
        RoomsListMembership::Pending => false,
        _ => {
            let found = find_member(&room.members, agent_id);
            match found {
                None => {
                    proof {
                        assert forall|i: int| !first_member_at(room.members@, agent_id@, i) by {}
                    }
                    false
                },
                Some(i) => {
                    proof {
                        assert forall|k: int| #[trigger] first_member_at(room.members@, agent_id@, k) implies k == i by {
                            if k < i {
                                assert(room.members@[k].agent_id@ != agent_id@);
                            } else if k > i {
                                assert(room.members@[i as int].agent_id@ != agent_id@);
                            }
                        }
                    }
                    match wanted {
                        RoomsListMembership::Member => true,
                        RoomsListMembership::Creator => room.members[i].is_creator,
                        _ => room.members[i].role == Role::Moderator,
                    }
                },
            }
        },
    }
}

/// A character of a room id as it stands in a draft id: ASCII letters,
/// digits, `-` and `_` stay, anything else becomes `_`.
pub open spec fn draft_id_char(c: char) -> char {
    if ('a' <= c <= 'z') || ('A' <= c <= 'Z') || ('0' <= c <= '9') || c == '-' || c == '_' {
        c
    } else {
        '_'
    }
}

/// The id of the next held draft in room `room_id` when `held` drafts are
/// held: `draft_<room>_<held + 1>`.
pub fn next_draft_id(room_id: &str, held: usize) -> (id: String)
    requires
        held < usize::MAX,
    ensures
        id@ == "draft_"@ + room_id@.map_values(|c: char| draft_id_char(c)) + "_"@ + decimal(held + 1),
{
    let chars = crate::text::chars_of(room_id);
    let mut id = "draft_".to_owned();
    let ghost start = id@;
    let mut i: usize = 0;
    while i < chars.len()
        invariant
            i <= chars@.len(),
            chars@ == room_id@,
            id@ == start + room_id@.take(i as int).map_values(|c: char| draft_id_char(c)),
        decreases chars@.len() - i,
    {
        let c = chars[i];
        let kept = if ('a' <= c && c <= 'z') || ('A' <= c && c <= 'Z') || ('0' <= c && c <= '9') || c == '-' || c == '_' {
            c
        } else {
            '_'
        };
        crate::text::push_char(&mut id, kept);
        proof {
            assert(room_id@.take(i + 1).map_values(|c: char| draft_id_char(c)) =~= room_id@.take(i as int).map_values(
                |c: char| draft_id_char(c),
            ).push(kept));
        }
        i += 1;
    }
    assert(room_id@.take(chars@.len() as int) =~= room_id@);
    crate::text::push_str(&mut id, "_");
    let count = u64_decimal((held + 1) as u64);
    crate::text::push_str(&mut id, count.as_str());
    id
}

/// Where an inbox entry stands.
#[derive(Clone, Copy, Debug, PartialEq, Eq, Structural)]
pub enum InboxEntryState {
    Pending,
    Claimed,
    Deferred(i64),
    Acknowledged,
}

pub struct InboxEntry {
    pub item: InboxItem,
    pub state: InboxEntryState,
}

/// An entry is ready when pending, or deferred until no later than now.
pub open spec fn entry_ready(state: InboxEntryState, now_ms: i64) -> bool {
    match state {
        InboxEntryState::Pending => true,
        InboxEntryState::Deferred(until) => until <= now_ms,
        InboxEntryState::Claimed | InboxEntryState::Acknowledged => false,
    }
}

pub fn inbox_entry_ready(entry: &InboxEntry, now_ms: i64) -> (r: bool)
    ensures
        r == entry_ready(entry.state, now_ms),
{
    match entry.state {
        InboxEntryState::Pending => true,
        InboxEntryState::Deferred(until) => until <= now_ms,
        InboxEntryState::Claimed | InboxEntryState::Acknowledged => false,
    }
}

/// A record continues the locally synced chain: the first has seq 1 and no
/// previous hash, each later one the next seq and the synced hash.
pub open spec fn continues_local_chain(synced_seq: u64, synced_hash: Option<Seq<char>>, record: ServerRecord<String>) -> bool {
    if synced_seq == 0 {
        record.seq == 1 && record.pre_hash is None
    } else {
        record.seq == synced_seq + 1 && opt_view(record.pre_hash) == synced_hash
    }
}

/// Why a record does not continue the locally synced chain, if it does not.
pub open spec fn local_chain_failure(synced_seq: u64, synced_hash: Option<Seq<char>>, record: ServerRecord<String>) -> Option<
    ErrorView,
> {
    if synced_seq == 0 {
        if record.seq != 1 || record.pre_hash is Some {
            Some(invalid_payload("first local record must have seq 1 and null pre_hash"@))
        } else {
            None
        }
    } else if record.seq != synced_seq + 1 {
        Some(invalid_payload("record seq must continue local chain"@))
    } else if opt_view(record.pre_hash) != synced_hash {
        Some(invalid_payload("record pre_hash mismatch"@))
    } else {
        None
    }
}

pub fn validate_next_record(room: &LocalRoomState, record: &ServerRecord<String>) -> (res: Result<()>)
    ensures
        res is Ok <==> continues_local_chain(room.synced_seq, opt_view(room.synced_hash), *record),
        fails_with(res, local_chain_failure(room.synced_seq, opt_view(room.synced_hash), *record)),
{
    if room.synced_seq == 0 {
        if record.seq != 1 || record.pre_hash.is_some() {
            return Err(SdkError::InvalidPayload("first local record must have seq 1 and null pre_hash".to_owned()));
        }
        return Ok(());
    }
    if room.synced_seq == u64::MAX || record.seq != room.synced_seq + 1 {
        return Err(SdkError::InvalidPayload("record seq must continue local chain".to_owned()));
    }
    let same = match (&record.pre_hash, &room.synced_hash) {
        (Some(a), Some(b)) => str_eq(a.as_str(), b.as_str()),
        (None, None) => true,
        _ => false,
    };
    if !same {
        return Err(SdkError::InvalidPayload("record pre_hash mismatch".to_owned()));
    }
    Ok(())
}

/// A record already synced: at or below the synced seq, with a stored record
/// of the same seq and hash.
pub open spec fn duplicate_record(room: LocalRoomState, record: ServerRecord<String>) -> bool {
    &&& record.seq <= room.synced_seq
    &&& exists|i: int|
        0 <= i < room.records@.len() && #[trigger] room.records@[i].seq == record.seq && room.records@[i].hash@
            == record.hash@
}

pub fn is_duplicate_record(room: &LocalRoomState, record: &ServerRecord<String>) -> (r: bool)
    ensures
        r == duplicate_record(*room, *record),
{
    if record.seq > room.synced_seq {
        return false;
    }
    let mut i: usize = 0;
    while i < room.records.len()
        invariant
            i <= room.records@.len(),
            record.seq <= room.synced_seq,
            forall|j: int|
                0 <= j < i ==> !(#[trigger] room.records@[j].seq == record.seq && room.records@[j].hash@ == record.hash@),
        decreases room.records@.len() - i,
    {
        if room.records[i].seq == record.seq && str_eq(room.records[i].hash.as_str(), record.hash.as_str()) {
            assert(room.records@[i as int].seq == record.seq && room.records@[i as int].hash@ == record.hash@);
            return true;
        }
        i += 1;
    }
    false
}

/// What opening a room fetches: nothing when it has been synced and no
/// refresh is asked; otherwise the room and its records, after the synced
/// sequence number when there is one.
pub open spec fn open_fetch_of(refresh: bool, synced_seq: u64) -> Option<Option<u64>> {
    if refresh || synced_seq == 0 {
        Some(if synced_seq > 0 { Some(synced_seq) } else { None })
    } else {
        None
    }
}

/// Decides what opening a room fetches from its host, given the sequence
/// number the local copy is synced to (0 when there is none).
pub fn room_open_fetch(refresh: bool, synced_seq: u64) -> (fetch: Option<Option<u64>>)
    ensures
        fetch == open_fetch_of(refresh, synced_seq),
{
    if refresh || synced_seq == 0 {
        Some(if synced_seq > 0 { Some(synced_seq) } else { None })
    } else {
        None
    }
}

/// The wire name of a room state.
pub open spec fn room_state_name(state: RoomState) -> Seq<char> {
    match state {
        RoomState::Scheduled => "scheduled"@,
        RoomState::Active => "active"@,
        RoomState::Ended => "ended"@,
        RoomState::Cancelled => "cancelled"@,
    }
}

/// Gives the wire name of a room state.
pub fn room_state_str(state: RoomState) -> (name: &'static str)
    ensures
        name@ == room_state_name(state),
{
    match state {
        RoomState::Scheduled => "scheduled",
        RoomState::Active => "active",
        RoomState::Ended => "ended",
        RoomState::Cancelled => "cancelled",
    }
}

/// Whether a room is kept in `agent`'s room listing: its state has the
/// name asked for, and the agent's membership passes the filter.
pub open spec fn room_listed(room: LocalRoomState, agent: Seq<char>, status: Option<Seq<char>>, membership: Option<RoomsListMembership>) -> bool {
    &&& status matches Some(s) ==> room_state_name(room.room.status) == s
    &&& membership_matches(room.members@, agent, membership)
}

/// For each room, whether the listing keeps it.
pub open spec fn room_flags(rooms: Seq<LocalRoomState>, agent: Seq<char>, status: Option<Seq<char>>, membership: Option<RoomsListMembership>) -> Seq<bool> {
    Seq::new(rooms.len(), |j: int| room_listed(rooms[j], agent, status, membership))
}

/// The number of rooms a listing returns when no limit is given.
pub open spec fn default_room_limit() -> int {
    50
}

/// Lists the open rooms (given in key order) for `agent`: the positions of
/// those with the state and membership asked for, skipping the first
/// `cursor` of them, at most `limit` (50 when unset).
pub fn room_list_positions(
    rooms: &Vec<LocalRoomState>,
    agent: &AgentId,
    status: Option<&str>,
    membership: Option<RoomsListMembership>,
    cursor: usize,
    limit: Option<usize>,
) -> (picked: Vec<usize>)
    ensures
        picked@.map_values(|p: usize| p as int) == page(
            flagged(room_flags(rooms@, agent@, opt_str(status), membership)),
            cursor as int,
            match limit {
                Some(n) => n as int,
                None => default_room_limit(),
            },
        ),
        forall|j: int| 0 <= j < picked@.len() ==> picked@[j] < rooms@.len(),
{
    let limit: usize = match limit {
        Some(n) => n,
        None => 50,
    };
    let mut flags: Vec<bool> = Vec::new();
    let mut i: usize = 0;
    while i < rooms.len()
        invariant
            i <= rooms@.len(),
            flags@.len() == i,
            forall|j: int| 0 <= j < i ==> flags@[j] == room_listed(rooms@[j], agent@, opt_str(status), membership),
        decreases rooms@.len() - i,
    {
        let room = &rooms[i];
        let status_ok = match status {
            Some(s) => str_eq(room_state_str(room.room.status), s),
            None => true,
        };
        flags.push(status_ok && membership_filter(room, agent, membership));
        i += 1;
    }
    assert(flags@ =~= room_flags(rooms@, agent@, opt_str(status), membership));
    let (picked, _) = page_of_flags(&flags, cursor, limit);
    picked
}

/// For each open room's `(host, room id)` key, whether its room id is `room_id`.
pub open spec fn key_flags(keys: Seq<(String, String)>, room_id: Seq<char>) -> Seq<bool> {
    Seq::new(keys.len(), |j: int| keys[j].1@ == room_id)
}

/// The key of the room a call names: the host given, without trailing
/// slashes, with the room id; without a host, the one open room with that
/// id, an error naming the id when several hosts have one, or an error when
/// none has.
pub open spec fn resolved_room_key(keys: Seq<(String, String)>, host: Option<Seq<char>>, room_id: Seq<char>) -> core::result::Result<(Seq<char>, Seq<char>), Seq<char>> {
    match host {
        Some(h) => Ok((trim_end_char(h, '/'), room_id)),
        None => {
            let found = flagged(key_flags(keys, room_id));
            if found.len() == 1 {
                Ok((keys[found[0]].0@, keys[found[0]].1@))
            } else if found.len() > 1 {
                Err("room id "@ + room_id + " matches rooms on more than one host; pass host"@)
            } else {
                Err("room is not open locally: "@ + room_id)
            }
        },
    }
}

/// Finds the key of the room a call names among the keys of the open rooms,
/// given in key order.
pub fn resolve_room_key(keys: &Vec<(String, String)>, host: Option<&str>, room_id: &str) -> (res: Result<(String, String)>)
    ensures
        match resolved_room_key(keys@, opt_str(host), room_id@) {
            Ok(key) => res matches Ok(k) && k.0@ == key.0 && k.1@ == key.1,
            Err(message) => res matches Err(SdkError::InvalidPayload(m)) && m@ == message,
        },
{
    if let Some(h) = host {
        return Ok((normalize_host(h), room_id.to_owned()));
    }
    let mut flags: Vec<bool> = Vec::new();
    let mut i: usize = 0;
    while i < keys.len()
        invariant
            i <= keys@.len(),
            flags@.len() == i,
            forall|j: int| 0 <= j < i ==> flags@[j] == (keys@[j].1@ == room_id@),
        decreases keys@.len() - i,
    {
        flags.push(str_eq(keys[i].1.as_str(), room_id));
        i += 1;
    }
    assert(flags@ =~= key_flags(keys@, room_id@));
    let (first, total) = page_of_flags(&flags, 0, 1);
    if total == 1 {
        let ghost found = flagged(flags@);
        assert(page(found, 0, 1) =~= found.subrange(0, 1));
        assert(first@.map_values(|q: usize| q as int)[0] == first@[0] as int);
        let p = first[0];
        assert(p as int == found[0]);
        let k0 = keys[p].0.clone();
        let k1 = keys[p].1.clone();
        assert(k0@ == keys@[found[0]].0@);
        Ok((k0, k1))
    } else if total > 1 {
        let mut message = "room id ".to_owned();
        push_str(&mut message, room_id);
        push_str(&mut message, " matches rooms on more than one host; pass host");
        assert(message@ == "room id "@ + room_id@ + " matches rooms on more than one host; pass host"@);
        Err(SdkError::InvalidPayload(message))
    } else {
        let mut message = "room is not open locally: ".to_owned();
        push_str(&mut message, room_id);
        assert(message@ == "room is not open locally: "@ + room_id@);
        Err(SdkError::InvalidPayload(message))
    }
}

/// A host's key: its URL without trailing slashes.
pub fn normalize_host(host: &str) -> (key: String)
    ensures
        key@ == trim_end_char(host@, '/'),
{
    trim_end_matches_char(host, '/')
}

/// The actions offered for a held draft.
pub fn held_draft_options() -> (options: Vec<DraftAction>)
    ensures
        options@ == seq![DraftAction::Revise, DraftAction::SendAsIs, DraftAction::StaySilent, DraftAction::SendAnyway],
{
    let options = vec![DraftAction::Revise, DraftAction::SendAsIs, DraftAction::StaySilent, DraftAction::SendAnyway];
    assert(options@ =~= seq![DraftAction::Revise, DraftAction::SendAsIs, DraftAction::StaySilent, DraftAction::SendAnyway]);
    options
}

/// The room head a write is based on: the given base when both parts are
/// given and name a head, the known head when neither is given.
pub open spec fn write_base(
    sync: Option<(u64, Seq<char>)>,
    base_seq: Option<u64>,
    base_hash: Option<Seq<char>>,
) -> Option<(u64, Seq<char>)> {
    match (base_seq, base_hash) {
        (Some(seq), Some(hash)) => if seq > 0 && !blank(hash) { Some((seq, hash)) } else { None },
        (None, None) => match sync {
            Some((seq, hash)) => if seq != 0 && !blank(hash) { Some((seq, hash)) } else { None },
            None => None,
        },
        _ => None,
    }
}

/// Why no write base can be had, when none can.
pub open spec fn write_base_failure(
    room_id: Seq<char>,
    sync: Option<(u64, Seq<char>)>,
    base_seq: Option<u64>,
    base_hash: Option<Seq<char>>,
) -> ErrorView {
    match (base_seq, base_hash) {
        (Some(_), Some(_)) => invalid_payload("base_seq and base_hash must identify a valid room head"@),
        (None, None) => match sync {
            Some(_) => invalid_payload("current room head is not known locally"@),
            None => invalid_payload("room is not open locally: "@ + room_id),
        },
        _ => invalid_payload("base_seq and base_hash must be provided together"@),
    }
}

/// The head of a room's sync state.
pub open spec fn sync_head(sync: Option<&SyncState>) -> Option<(u64, Seq<char>)> {
    match sync {
        Some(s) => Some((s.head_seq, s.head_hash@)),
        None => None,
    }
}

/// The room head a write to room `room_id` is based on. `sync` is the
/// room's sync state, or `None` when the room is not open locally.
pub fn room_head_for_write(
    room_id: &str,
    sync: Option<&SyncState>,
    base_seq: Option<u64>,
    base_hash: Option<String>,
) -> (res: Result<(u64, String)>)
    ensures
        match write_base(sync_head(sync), base_seq, opt_view(base_hash)) {
            Some((seq, hash)) => res matches Ok(r) && r.0 == seq && r.1@ == hash,
            None => res matches Err(e) && e@ == write_base_failure(room_id@, sync_head(sync), base_seq, opt_view(base_hash)),
        },
{
    match (base_seq, base_hash) {
        (Some(seq), Some(hash)) => {
            if seq > 0 && !is_blank(hash.as_str()) {
                Ok((seq, hash))
            } else {
                Err(SdkError::InvalidPayload("base_seq and base_hash must identify a valid room head".to_owned()))
            }
        },
        (None, None) => {
            let sync = match sync {
                Some(sync) => sync,
                None => {
                    let mut message = "room is not open locally: ".to_owned();
                    crate::text::push_str(&mut message, room_id);
                    return Err(SdkError::InvalidPayload(message));
                },
            };
            if sync.head_seq == 0 || is_blank(sync.head_hash.as_str()) {
                return Err(SdkError::InvalidPayload("current room head is not known locally".to_owned()));
            }
            Ok((sync.head_seq, sync.head_hash.clone()))
        },
        _ => Err(SdkError::InvalidPayload("base_seq and base_hash must be provided together".to_owned())),
    }
}

/// A write's base differs from the known head in a part it names.
pub open spec fn head_mismatched(head_seq: u64, head_hash: Seq<char>, base_seq: Option<u64>, base_hash: Option<Seq<char>>) -> bool {
    (base_seq matches Some(s) && s != head_seq) || (base_hash matches Some(h) && h != head_hash)
}

/// Whether a write's base differs from the room's known head.
pub fn head_mismatch(sync: &SyncState, base_seq: Option<u64>, base_hash: Option<&str>) -> (r: bool)
    ensures
        r == head_mismatched(sync.head_seq, sync.head_hash@, base_seq, opt_str(base_hash)),
{
    let seq_mismatch = match base_seq {
        Some(s) => s != sync.head_seq,
        None => false,
    };
    let hash_mismatch = match base_hash {
        Some(h) => !str_eq(sync.head_hash.as_str(), h),
        None => false,
    };
    seq_mismatch || hash_mismatch
}

} // verus!
