//! Held drafts: what committing a held message or event sends, and when the
//! draft is settled.

use vstd::prelude::*;

use crate::codec::{json_member_str, json_member_string, json_quote, json_string_literal};
use crate::error::{Result, SdkError};
use crate::json_text::{member_json, object_json, object_text, push_member};
use crate::text::views;
use crate::identity::AgentId;
use crate::text::str_eq;

use super::queries::{flagged, page, page_of_flags};
use super::state::normalize_host;
use super::views::{DraftAction, HeadMismatchPolicy, HeldDraft};
use crate::text::trim_end_char;

verus! {

/// A message the agent asked to send to a room.
pub struct RoomSendMessageInput {
    pub room_id: String,
    pub host: Option<String>,
    pub content: String,
    pub content_type: Option<String>,
    pub mentions: Vec<AgentId>,
    pub references: Vec<String>,
    /// Further payload members as `(name, JSON text)` pairs.
    pub extra: Vec<(String, String)>,
    pub base_seq: Option<u64>,
    pub base_hash: Option<String>,
    pub on_head_mismatch: HeadMismatchPolicy,
}

/// An event the agent asked to submit to a room.
pub struct RoomSubmitEventInput {
    pub room_id: String,
    pub host: Option<String>,
    pub event_type: String,
    /// The event payload, as JSON text.
    pub payload: String,
    pub mentions: Vec<AgentId>,
    pub references: Vec<String>,
    pub base_seq: Option<u64>,
    pub base_hash: Option<String>,
    pub on_head_mismatch: HeadMismatchPolicy,
}

/// The request a held draft would have sent.
pub enum HeldDraftRequest {
    Message(RoomSendMessageInput),
    Event(RoomSubmitEventInput),
}

/// What the agent decided about a held draft, with the revisions it makes.
pub struct DraftCommitInput {
    pub draft_id: String,
    pub action: DraftAction,
    pub content: Option<String>,
    pub content_type: Option<String>,
    pub mentions: Option<Vec<AgentId>>,
    pub references: Option<Vec<String>>,
    pub extra: Option<Vec<(String, String)>>,
    pub event_type: Option<String>,
    /// A replacement payload, as JSON text.
    pub payload: Option<String>,
    pub base_seq: Option<u64>,
    pub base_hash: Option<String>,
    pub on_head_mismatch: HeadMismatchPolicy,
}

/// The step that commits a held draft.
pub enum DraftCommitStep {
    /// Drop the draft without sending anything.
    Drop,
    /// Send the request through the head check.
    Send(HeldDraftRequest),
    /// Send the request without a head check.
    SendUnchecked(HeldDraftRequest),
}

/// `revision`, or `current` when there is none.
pub open spec fn revised<T>(current: T, revision: Option<T>) -> T {
    match revision {
        Some(v) => v,
        None => current,
    }
}

/// The message sent on `action`: a revision takes the given fields, every
/// send but `SendAnyway` takes the commit's head and policy, and `SendAnyway`
/// clears the head.
pub open spec fn committed_message(m: RoomSendMessageInput, input: DraftCommitInput) -> RoomSendMessageInput {
    match input.action {
        DraftAction::Revise => RoomSendMessageInput {
            content: revised(m.content, input.content),
            content_type: match input.content_type {
                Some(t) => Some(t),
                None => m.content_type,
            },
            mentions: revised(m.mentions, input.mentions),
            references: revised(m.references, input.references),
            extra: revised(m.extra, input.extra),
            base_seq: input.base_seq,
            base_hash: input.base_hash,
            on_head_mismatch: input.on_head_mismatch,
            ..m
        },
        DraftAction::SendAnyway => RoomSendMessageInput {
            base_seq: None,
            base_hash: None,
            on_head_mismatch: HeadMismatchPolicy::SendAnyway,
            ..m
        },
        _ => RoomSendMessageInput {
            base_seq: input.base_seq,
            base_hash: input.base_hash,
            on_head_mismatch: input.on_head_mismatch,
            ..m
        },
    }
}

/// The event submitted on `action`, as for messages.
pub open spec fn committed_event(e: RoomSubmitEventInput, input: DraftCommitInput) -> RoomSubmitEventInput {
    match input.action {
        DraftAction::Revise => RoomSubmitEventInput {
            event_type: revised(e.event_type, input.event_type),
            payload: revised(e.payload, input.payload),
            mentions: revised(e.mentions, input.mentions),
            references: revised(e.references, input.references),
            base_seq: input.base_seq,
            base_hash: input.base_hash,
            on_head_mismatch: input.on_head_mismatch,
            ..e
        },
        DraftAction::SendAnyway => RoomSubmitEventInput {
            base_seq: None,
            base_hash: None,
            on_head_mismatch: HeadMismatchPolicy::SendAnyway,
            ..e
        },
        _ => RoomSubmitEventInput {
            base_seq: input.base_seq,
            base_hash: input.base_hash,
            on_head_mismatch: input.on_head_mismatch,
            ..e
        },
    }
}

/// The step for a held request and a commit: `StaySilent` drops the draft,
/// `SendAnyway` sends without the head check, and the rest send through it.
pub open spec fn commit_step(request: HeldDraftRequest, input: DraftCommitInput) -> DraftCommitStep {
    if input.action == DraftAction::StaySilent {
        DraftCommitStep::Drop
    } else {
        let sent = match request {
            HeldDraftRequest::Message(m) => HeldDraftRequest::Message(committed_message(m, input)),
            HeldDraftRequest::Event(e) => HeldDraftRequest::Event(committed_event(e, input)),
        };
        if input.action == DraftAction::SendAnyway {
            DraftCommitStep::SendUnchecked(sent)
        } else {
            DraftCommitStep::Send(sent)
        }
    }
}

/// Works out what committing a held draft sends.
pub fn plan_draft_commit(request: HeldDraftRequest, input: DraftCommitInput) -> (step: DraftCommitStep)
    ensures
        step == commit_step(request, input),
{
    let ghost spec_input = input;
    let ghost spec_request = request;
    let action = input.action;
    if action == DraftAction::StaySilent {
        return DraftCommitStep::Drop;
    }
    let sent = match request {
        HeldDraftRequest::Message(mut m) => {
            match action {
                DraftAction::Revise => {
                    let DraftCommitInput {
                        content,
                        content_type,
                        mentions,
                        references,
                        extra,
                        base_seq,
                        base_hash,
                        on_head_mismatch,
                        ..
                    } = input;
                    if let Some(c) = content {
                        m.content = c;
                    }
                    if let Some(t) = content_type {
                        m.content_type = Some(t);
                    }
                    if let Some(v) = mentions {
                        m.mentions = v;
                    }
                    if let Some(v) = references {
                        m.references = v;
                    }
                    if let Some(v) = extra {
                        m.extra = v;
                    }
                    m.base_seq = base_seq;
                    m.base_hash = base_hash;
                    m.on_head_mismatch = on_head_mismatch;
                },
                DraftAction::SendAnyway => {
                    m.base_seq = None;
                    m.base_hash = None;
                    m.on_head_mismatch = HeadMismatchPolicy::SendAnyway;
                },
                _ => {
                    m.base_seq = input.base_seq;
                    m.base_hash = input.base_hash;
                    m.on_head_mismatch = input.on_head_mismatch;
                },
            }
            HeldDraftRequest::Message(m)
        },
        HeldDraftRequest::Event(mut e) => {
            match action {
                DraftAction::Revise => {
                    let DraftCommitInput {
                        event_type,
                        payload,
                        mentions,
                        references,
                        base_seq,
                        base_hash,
                        on_head_mismatch,
                        ..
                    } = input;
                    if let Some(t) = event_type {
                        e.event_type = t;
                    }
                    if let Some(p) = payload {
                        e.payload = p;
                    }
                    if let Some(v) = mentions {
                        e.mentions = v;
                    }
                    if let Some(v) = references {
                        e.references = v;
                    }
                    e.base_seq = base_seq;
                    e.base_hash = base_hash;
                    e.on_head_mismatch = on_head_mismatch;
                },
                DraftAction::SendAnyway => {
                    e.base_seq = None;
                    e.base_hash = None;
                    e.on_head_mismatch = HeadMismatchPolicy::SendAnyway;
                },
                _ => {
                    e.base_seq = input.base_seq;
                    e.base_hash = input.base_hash;
                    e.on_head_mismatch = input.on_head_mismatch;
                },
            }
            HeldDraftRequest::Event(e)
        },
    };
    if action == DraftAction::SendAnyway {
        DraftCommitStep::SendUnchecked(sent)
    } else {
        DraftCommitStep::Send(sent)
    }
}

/// Whether a send's result (JSON text) settles its draft: its `status` is
/// `sent` or `held`.
pub open spec fn settles_draft(result: Seq<char>) -> bool {
    json_member_string(result, "status"@) matches Some(s) && (s == "sent"@ || s == "held"@)
}

/// Tells whether the result of committing a draft removes the draft.
pub fn commit_settles_draft(result: &str) -> (settled: bool)
    ensures
        settled == settles_draft(result@),
{
    match json_member_str(result, "status") {
        Some(status) => str_eq(status.as_str(), "sent") || str_eq(status.as_str(), "held"),
        None => false,
    }
}

/// Whether a held draft passes a listing's filters: its room, and the host
/// of its sync state against the host asked for without trailing slashes.
pub open spec fn draft_match(draft: HeldDraft, room_id: Option<Seq<char>>, host: Option<Seq<char>>) -> bool {
    &&& room_id matches Some(r) ==> draft.room_id@ == r
    &&& host matches Some(h) ==> draft.current_sync.host@ == trim_end_char(h, '/')
}

/// For each held draft, whether it passes the filters.
pub open spec fn draft_flags(drafts: Seq<HeldDraft>, room_id: Option<Seq<char>>, host: Option<Seq<char>>) -> Seq<bool> {
    Seq::new(drafts.len(), |j: int| draft_match(drafts[j], room_id, host))
}

/// The number of drafts a listing returns when no limit is given.
pub open spec fn default_draft_limit() -> int {
    50
}

/// The optional text of a filter.
pub open spec fn filter_text(filter: Option<&str>) -> Option<Seq<char>> {
    match filter {
        Some(f) => Some(f@),
        None => None,
    }
}

/// Lists held drafts (given in id order): the positions of those passing
/// the room and host filters, skipping the first `cursor` of them, at most
/// `limit` (50 when unset); and the cursor of the next page when more pass.
pub fn draft_page(
    drafts: &Vec<HeldDraft>,
    room_id: Option<&str>,
    host: Option<&str>,
    cursor: usize,
    limit: Option<usize>,
) -> (r: (Vec<usize>, Option<usize>))
    requires
        limit matches Some(n) ==> n < usize::MAX,
    ensures
        ({
            let matched = flagged(draft_flags(drafts@, filter_text(room_id), filter_text(host)));
            let lim = match limit {
                Some(n) => n as int,
                None => default_draft_limit(),
            };
            &&& r.0@.map_values(|p: usize| p as int) == page(matched, cursor as int, lim)
            &&& r.1 == if matched.len() > cursor + lim {
                Some((cursor + lim) as usize)
            } else {
                None
            }
        }),
        forall|j: int| 0 <= j < r.0@.len() ==> r.0@[j] < drafts@.len(),
{
    let limit: usize = match limit {
        Some(n) => n,
        None => 50,
    };
    let host_key: Option<String> = match host {
        Some(h) => Some(normalize_host(h)),
        None => None,
    };
    let ghost room_text = filter_text(room_id);
    let ghost host_text = filter_text(host);
    let mut flags: Vec<bool> = Vec::new();
    let mut i: usize = 0;
    while i < drafts.len()
        invariant
            i <= drafts@.len(),
            flags@.len() == i,
            forall|j: int| 0 <= j < i ==> flags@[j] == draft_match(drafts@[j], room_text, host_text),
            host_key matches Some(k) ==> host_text matches Some(h) && k@ == trim_end_char(h, '/'),
            host_key is None ==> host_text is None,
            room_text == filter_text(room_id),
        decreases drafts@.len() - i,
    {
        let draft = &drafts[i];
        let room_ok = match room_id {
            Some(r) => str_eq(draft.room_id.as_str(), r),
            None => true,
        };
        let host_ok = match &host_key {
            Some(k) => str_eq(draft.current_sync.host.as_str(), k.as_str()),
            None => true,
        };
        flags.push(room_ok && host_ok);
        i += 1;
    }
    assert(flags@ =~= draft_flags(drafts@, room_text, host_text));
    let (picked, total) = page_of_flags(&flags, cursor, limit);
    let next = if total > cursor && total - cursor > limit {
        Some(cursor + limit)
    } else {
        None
    };
    (picked, next)
}

/// Finds the held draft with id `draft_id`: the first such, or the error
/// that there is none.
pub fn find_draft(drafts: &Vec<HeldDraft>, draft_id: &str) -> (res: Result<usize>)
    ensures
        match res {
            Ok(i) => i < drafts@.len() && drafts@[i as int].id@ == draft_id@ && forall|j: int|
                0 <= j < i ==> #[trigger] drafts@[j].id@ != draft_id@,
            Err(e) => e matches SdkError::InvalidPayload(m) && m@ == "draft not found"@ && forall|j: int|
                0 <= j < drafts@.len() ==> #[trigger] drafts@[j].id@ != draft_id@,
        },
{
    let mut i: usize = 0;
    while i < drafts.len()
        invariant
            i <= drafts@.len(),
            forall|j: int| 0 <= j < i ==> #[trigger] drafts@[j].id@ != draft_id@,
        decreases drafts@.len() - i,
    {
        if str_eq(drafts[i].id.as_str(), draft_id) {
            return Ok(i);
        }
        i += 1;
    }
    Err(SdkError::InvalidPayload("draft not found".to_owned()))
}

/// The answer to a draft dropped on `StaySilent`: its status and id.
pub open spec fn dropped_json(draft_id: Seq<char>) -> Seq<char> {
    object_json(
        seq![
            member_json("draft_id"@, json_string_literal(draft_id)),
            member_json("status"@, json_string_literal("dropped"@)),
        ],
    )
}

/// Writes the answer to a dropped draft.
pub fn dropped_result(draft_id: &str) -> (text: String)
    ensures
        text@ == dropped_json(draft_id@),
{
    let mut members: Vec<String> = Vec::new();
    let t = json_quote(draft_id);
    push_member(&mut members, "draft_id", t.as_str());
    let t = json_quote("dropped");
    push_member(&mut members, "status", t.as_str());
    assert(views(members@) =~= seq![
        member_json("draft_id"@, json_string_literal(draft_id@)),
        member_json("status"@, json_string_literal("dropped"@)),
    ]);
    object_text(&members)
}

} // verus!
