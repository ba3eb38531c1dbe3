//! The checks the connector makes on a join request before it completes the
//! join with a signed `room.join`.

use vstd::prelude::*;

use crate::discourse::{JoinRequestStatus, Role, RoomJoinRequestStatus, Visibility};
use crate::error::{Result, SdkError};
use crate::identity::AgentId;
use crate::text::{opt_str, str_eq};

use super::queries::{flagged, page, page_of_flags};

verus! {

/// The message of a role mismatch: the approved role, as Rust's `Debug` writes it.
pub open spec fn role_mismatch_message(approved: Role) -> Seq<char> {
    "join_request_role_mismatch: approved role is "@ + match approved {
        Role::Moderator => "Moderator"@,
        Role::Speaker => "Speaker"@,
        Role::Observer => "Observer"@,
    }
}

/// The role an approved join request grants: the role set on approval, else the
/// requested one.
pub open spec fn granted_role(status: RoomJoinRequestStatus) -> Role {
    match status.approved_role {
        Some(role) => role,
        None => status.request.role,
    }
}

/// The outcome of checking a join request for `agent`: it must be the
/// agent's own request and approved.
pub open spec fn approval_result(status: RoomJoinRequestStatus, agent: Seq<char>) -> core::result::Result<Role, Seq<char>> {
    if status.request.applicant@ != agent {
        Err("join request belongs to another agent"@)
    } else if status.status != JoinRequestStatus::Approved {
        Err("join request is not approved"@)
    } else {
        Ok(granted_role(status))
    }
}

/// Checks that the join request is `agent`'s own and approved, and gives the
/// role the join is signed with.
pub fn approved_join_role(status: &RoomJoinRequestStatus, agent: &AgentId) -> (res: Result<Role>)
    ensures
        match approval_result(*status, agent@) {
            Ok(role) => res == Ok::<Role, SdkError>(role),
            Err(message) => res matches Err(SdkError::InvalidPayload(m)) && m@ == message,
        },
{
    if !(status.request.applicant == *agent) {
        return Err(SdkError::InvalidPayload("join request belongs to another agent".to_owned()));
    }
    if status.status != JoinRequestStatus::Approved {
        return Err(SdkError::InvalidPayload("join request is not approved".to_owned()));
    }
    match status.approved_role {
        Some(role) => Ok(role),
        None => Ok(status.request.role),
    }
}

/// As [`approved_join_role`], and the role the agent asked to join with must
/// be the granted one: a differing role is an error, never replaced.
pub fn approved_join_role_for(status: &RoomJoinRequestStatus, agent: &AgentId, requested: Role) -> (res: Result<Role>)
    ensures
        match approval_result(*status, agent@) {
            Ok(role) => if role == requested {
                res == Ok::<Role, SdkError>(role)
            } else {
                res matches Err(SdkError::InvalidPayload(m)) && m@ == role_mismatch_message(role)
            },
            Err(message) => res matches Err(SdkError::InvalidPayload(m)) && m@ == message,
        },
{
    let role = approved_join_role(status, agent)?;
    if role != requested {
        let mut message = "join_request_role_mismatch: approved role is ".to_owned();
        let name = match role {
            Role::Moderator => "Moderator",
            Role::Speaker => "Speaker",
            Role::Observer => "Observer",
        };
        crate::text::push_str(&mut message, name);
        return Err(SdkError::InvalidPayload(message));
    }
    Ok(role)
}

/// How a join goes on.
#[derive(Clone, Copy, Debug, PartialEq, Eq, Structural)]
pub enum JoinRoute {
    /// Complete the approved join request with a signed `room.join`.
    CompleteRequest,
    /// Join the public room directly with a signed `room.join`.
    JoinPublic,
    /// Ask the room's moderators to let the agent join.
    RequestJoin,
}

/// The route of a join: completing a request when one is named, joining
/// directly when the room is public, and asking otherwise.
pub open spec fn join_route_of(has_request: bool, visibility: Option<Visibility>) -> JoinRoute {
    if has_request {
        JoinRoute::CompleteRequest
    } else if visibility == Some(Visibility::Public) {
        JoinRoute::JoinPublic
    } else {
        JoinRoute::RequestJoin
    }
}

/// Chooses how a join goes on, from the request it names, if any, and the
/// room's visibility.
pub fn join_route(request_id: &Option<String>, visibility: Option<Visibility>) -> (route: JoinRoute)
    ensures
        route == join_route_of(request_id is Some, visibility),
{
    if request_id.is_some() {
        JoinRoute::CompleteRequest
    } else {
        match visibility {
            Some(Visibility::Public) => JoinRoute::JoinPublic,
            _ => JoinRoute::RequestJoin,
        }
    }
}

/// The wire name of a join request's status.
pub open spec fn join_status_name(status: JoinRequestStatus) -> Seq<char> {
    match status {
        JoinRequestStatus::Pending => "pending"@,
        JoinRequestStatus::Approved => "approved"@,
        JoinRequestStatus::Rejected => "rejected"@,
        JoinRequestStatus::Expired => "expired"@,
    }
}

/// Gives the wire name of a join request's status.
pub fn join_status_str(status: JoinRequestStatus) -> (name: &'static str)
    ensures
        name@ == join_status_name(status),
{
    match status {
        JoinRequestStatus::Pending => "pending",
        JoinRequestStatus::Approved => "approved",
        JoinRequestStatus::Rejected => "rejected",
        JoinRequestStatus::Expired => "expired",
    }
}

/// For each join request, whether its status has the name asked for.
pub open spec fn join_request_flags(requests: Seq<RoomJoinRequestStatus>, status: Option<Seq<char>>) -> Seq<bool> {
    Seq::new(requests.len(), |j: int| status matches Some(s) ==> join_status_name(requests[j].status) == s)
}

/// Lists a room's join requests as the host served them: the positions of
/// those with the status asked for, skipping the first `cursor` of them, at
/// most `limit` (all when unset).
pub fn join_request_positions(
    requests: &Vec<RoomJoinRequestStatus>,
    status: Option<&str>,
    cursor: usize,
    limit: Option<usize>,
) -> (picked: Vec<usize>)
    ensures
        ({
            let matched = flagged(join_request_flags(requests@, opt_str(status)));
            picked@.map_values(|p: usize| p as int) == page(
                matched,
                cursor as int,
                match limit {
                    Some(n) => n as int,
                    None => matched.len() as int,
                },
            )
        }),
        forall|j: int| 0 <= j < picked@.len() ==> picked@[j] < requests@.len(),
{
    let mut flags: Vec<bool> = Vec::new();
    let mut i: usize = 0;
    while i < requests.len()
        invariant
            i <= requests@.len(),
            flags@.len() == i,
            forall|j: int|
                0 <= j < i ==> flags@[j] == (opt_str(status) matches Some(s) ==> join_status_name(requests@[j].status) == s),
        decreases requests@.len() - i,
    {
        let kept = match status {
            Some(s) => str_eq(join_status_str(requests[i].status), s),
            None => true,
        };
        flags.push(kept);
        i += 1;
    }
    assert(flags@ =~= join_request_flags(requests@, opt_str(status)));
    let (_, total) = page_of_flags(&flags, cursor, 0);
    let limit: usize = match limit {
        Some(n) => n,
        None => total,
    };
    let (picked, _) = page_of_flags(&flags, cursor, limit);
    picked
}

} // verus!
