//! Agent Delegation Protocol 1.0: principal documents, controller bindings,
//! grant and revoke payloads, credential materialization and the authority
//! rules that decide which controller may grant what.

use vstd::prelude::*;

use crate::error::{fails_with, invalid_payload, ErrorView, Result, SdkError};
use crate::identity::{agent_key_result, AgentId, Envelope, Event};
use crate::codec::{decimal, i64_decimal, json_quote, json_string_literal};
use crate::json_text::{
    member_json, object_json, object_text, opt_string_member, pairs_json, pairs_text, push_member, push_opt_string_member,
    strings_json, strings_text,
};
use crate::text::{blank, contains_str, is_blank, pair_views, str_eq, views};

verus! {

pub const PROTOCOL: &'static str = "agent-delegation/1.0";

pub const DELEGATION_GRANT: &'static str = "delegation.grant";

pub const DELEGATION_REVOKE: &'static str = "delegation.revoke";

/// The largest timestamp accepted: `Number.MAX_SAFE_INTEGER`.
pub const MAX_SAFE_TIMESTAMP: i64 = 9_007_199_254_740_991;

#[derive(Clone, Copy, Debug, PartialEq, Eq, Structural)]
pub enum DelegationStatus {
    Active,
    Suspended,
    Expired,
    Revoked,
}

pub struct PrincipalLink {
    pub name: String,
    pub url: String,
    pub rel: String,
}

pub struct PrincipalDescriptor {
    pub id: String,
    pub kind: Option<String>,
    pub name: Option<String>,
}

impl PrincipalDescriptor {
    pub fn new(id: &str) -> (descriptor: Self)
        ensures
            descriptor.id@ == id@,
            descriptor.kind is None,
            descriptor.name is None,
    {
        PrincipalDescriptor { id: id.to_owned(), kind: None, name: None }
    }

    pub fn duplicate(&self) -> (copy: Self)
        ensures
            copy.id@ == self.id@,
            crate::text::opt_view(copy.kind) == crate::text::opt_view(self.kind),
            crate::text::opt_view(copy.name) == crate::text::opt_view(self.name),
    {
        PrincipalDescriptor {
            id: self.id.clone(),
            kind: crate::text::clone_opt(&self.kind),
            name: crate::text::clone_opt(&self.name),
        }
    }
}

/// A key binding of a principal, current or retired. Without `delegation` the
/// key may only sign.
pub struct Controller {
    pub id: AgentId,
    pub source: String,
    pub valid_from: i64,
    pub name: Option<String>,
    pub delegation: Option<DelegationAuthority>,
    pub retired_at: Option<i64>,
    pub invalid_from: Option<i64>,
}

pub enum DelegationAuthority {
    /// Only the literal "*" is valid; validation rejects all other strings.
    Unrestricted(String),
    Restricted(DelegationPolicy),
}

pub struct DelegationPolicy {
    pub scopes: Vec<String>,
    pub audiences: Vec<String>,
}

pub struct DelegationAcceptance {
    pub event_id: String,
    pub accepted_at: i64,
}

pub struct PrincipalDocument {
    pub id: String,
    pub kind: Option<String>,
    pub name: Option<String>,
    pub description: Option<String>,
    pub avatar_url: Option<String>,
    /// Other HTTPS URLs that lead to this principal. Aliases are not identities.
    pub aliases: Vec<String>,
    pub links: Vec<PrincipalLink>,
    pub protocol: String,
    pub controllers: Vec<Controller>,
    pub retired_controllers: Vec<Controller>,
    /// Delegation query endpoint for this principal; answers existence checks.
    pub delegation_query_url: Option<String>,
    pub updated_at: i64,
    /// Further members as `(name, JSON text)` pairs.
    pub extra: Vec<(String, String)>,
}

pub struct DelegationGrantPayload {
    pub id: String,
    pub principal: PrincipalDescriptor,
    pub subject: AgentId,
    pub relationship: Option<String>,
    pub scopes: Vec<String>,
    pub audiences: Vec<String>,
    /// Constraints as `(name, JSON text)` pairs.
    pub constraints: Vec<(String, String)>,
    pub not_before: Option<i64>,
    pub expires_at: Option<i64>,
}

impl DelegationGrantPayload {
    pub fn new(
        id: &str,
        principal: PrincipalDescriptor,
        subject: AgentId,
        scopes: Vec<String>,
        audiences: Vec<String>,
    ) -> (payload: Self)
        ensures
            payload.id@ == id@,
            payload.principal == principal,
            payload.subject == subject,
            payload.relationship is None,
            payload.scopes == scopes,
            payload.audiences == audiences,
            payload.constraints@.len() == 0,
            payload.not_before is None,
            payload.expires_at is None,
    {
        DelegationGrantPayload {
            id: id.to_owned(),
            principal,
            subject,
            relationship: None,
            scopes,
            audiences,
            constraints: Vec::new(),
            not_before: None,
            expires_at: None,
        }
    }
}

pub struct DelegationRevokePayload {
    pub id: String,
    pub principal_id: String,
    pub reason: Option<String>,
}

pub enum DelegationPayload {
    Grant(DelegationGrantPayload),
    Revoke(DelegationRevokePayload),
}

pub struct DelegationCredential {
    pub id: String,
    pub protocol: String,
    pub principal: PrincipalDescriptor,
    pub controller: AgentId,
    pub owner_controller: AgentId,
    pub grant_event_id: String,
    pub accepted_at: i64,
    pub subject: AgentId,
    pub relationship: Option<String>,
    pub scopes: Vec<String>,
    pub audiences: Vec<String>,
    /// Constraints as `(name, JSON text)` pairs.
    pub constraints: Vec<(String, String)>,
    pub not_before: Option<i64>,
    pub expires_at: Option<i64>,
    pub status: DelegationStatus,
    pub updated_at: i64,
    pub event_id: String,
}

pub struct DelegationStatusDocument {
    pub protocol: String,
    pub grant_event_id: String,
    pub accepted_at: i64,
    pub id: String,
    pub status: DelegationStatus,
    pub checked_at: i64,
    pub expires_at: Option<i64>,
    pub event_id: String,
}

pub struct DelegationServiceDiscovery {
    pub protocol: String,
    pub service: String,
    pub endpoints: DelegationServiceEndpoints,
    pub features: Vec<String>,
}

pub struct DelegationServiceEndpoints {
    pub delegations: String,
    pub query: Option<String>,
}

pub struct DelegationQueryRequest {
    pub subject: Option<AgentId>,
    pub principal_id: Option<String>,
    pub id: Option<String>,
    pub status: Option<DelegationStatus>,
    pub limit: Option<u32>,
}

impl Default for DelegationQueryRequest {
    fn default() -> (request: Self)
        ensures
            request.subject is None,
            request.principal_id is None,
            request.id is None,
            request.status is None,
            request.limit is None,
    {
        DelegationQueryRequest { subject: None, principal_id: None, id: None, status: None, limit: None }
    }
}

pub struct DelegationSummary {
    pub id: String,
    pub subject: AgentId,
    pub principal: PrincipalDescriptor,
    pub scopes: Vec<String>,
    pub status: DelegationStatus,
}

pub struct DelegationQueryResponse {
    pub result: Vec<DelegationSummary>,
}

pub struct DelegationEventsResponse {
    pub result: Vec<Envelope<DelegationPayload>>,
    pub acceptances: Vec<DelegationAcceptance>,
}

pub fn delegation_grant_event(
    actor: AgentId,
    created_at: i64,
    nonce: u64,
    payload: DelegationGrantPayload,
) -> (event: Event<DelegationGrantPayload>)
    ensures
        event.protocol@ == PROTOCOL@,
        event.kind@ == DELEGATION_GRANT@,
        event.actor == actor,
        event.created_at == created_at,
        event.nonce == nonce,
        event.room_id is None,
        event.payload == payload,
        event.extra@.len() == 0,
{
    Event::new(PROTOCOL, DELEGATION_GRANT, actor, created_at, nonce, payload)
}

pub fn delegation_revoke_event(
    actor: AgentId,
    created_at: i64,
    nonce: u64,
    payload: DelegationRevokePayload,
) -> (event: Event<DelegationRevokePayload>)
    ensures
        event.protocol@ == PROTOCOL@,
        event.kind@ == DELEGATION_REVOKE@,
        event.actor == actor,
        event.created_at == created_at,
        event.nonce == nonce,
        event.room_id is None,
        event.payload == payload,
        event.extra@.len() == 0,
{
    Event::new(PROTOCOL, DELEGATION_REVOKE, actor, created_at, nonce, payload)
}

/// What `url::Url::parse` makes of a text: `None` when it does not parse,
/// otherwise its scheme, whether it has a host, and the ASCII serialization
/// of its origin.
pub uninterp spec fn url_parse(text: Seq<char>) -> Option<(Seq<char>, bool, Seq<char>)>;

struct ParsedUrl {
    scheme: String,
    has_host: bool,
    origin: String,
}

/// `url::Url::parse`, with the parsed URL's `scheme()`, `host_str().is_some()`
/// and `origin().ascii_serialization()` read out. Claims the named result.
#[verifier::external_body]
fn parse_url(text: &str) -> (res: Option<ParsedUrl>)
    ensures
        match res {
            Some(p) => url_parse(text@) == Some((p.scheme@, p.has_host, p.origin@)),
            None => url_parse(text@) is None,
        },
{
    url::Url::parse(text).ok().map(|url| ParsedUrl {
        scheme: url.scheme().to_owned(),
        has_host: url.host_str().is_some(),
        origin: url.origin().ascii_serialization(),
    })
}

/// An absolute HTTPS URL with a host.
pub open spec fn https_url(value: Seq<char>) -> bool {
    url_parse(value) matches Some(p) && p.0 == "https"@ && p.1
}

/// An HTTPS URL that is exactly the serialization of its own origin.
pub open spec fn serialized_origin(value: Seq<char>) -> bool {
    https_url(value) && url_parse(value).unwrap().2 == value
}

/// A timestamp is a non-negative safe integer.
pub open spec fn valid_timestamp(value: i64) -> bool {
    0 <= value <= MAX_SAFE_TIMESTAMP
}

/// A list of identifiers: non-empty unless allowed, each non-blank, no
/// wildcard `*`, no repeats.
pub open spec fn valid_strings(values: Seq<Seq<char>>, allow_empty: bool) -> bool {
    &&& allow_empty || values.len() > 0
    &&& forall|i: int| 0 <= i < values.len() ==> !blank(#[trigger] values[i]) && values[i] != "*"@
    &&& forall|i: int, j: int| 0 <= j < i < values.len() ==> #[trigger] values[j] != #[trigger] values[i]
}

/// Every value is a serialized HTTPS origin.
pub open spec fn all_origins(values: Seq<Seq<char>>) -> bool {
    forall|i: int| 0 <= i < values.len() ==> serialized_origin(#[trigger] values[i])
}

/// Every value is an HTTPS URL.
pub open spec fn all_https(values: Seq<Seq<char>>) -> bool {
    forall|i: int| 0 <= i < values.len() ==> https_url(#[trigger] values[i])
}

/// A delegation id is non-blank and not a dot segment.
pub open spec fn valid_delegation_id(value: Seq<char>) -> bool {
    !blank(value) && value != "."@ && value != ".."@
}

/// The first failure along a list, each item checked against the items
/// before it.
pub open spec fn first_failure(
    values: Seq<Seq<char>>,
    check: spec_fn(Seq<Seq<char>>, Seq<char>) -> Option<ErrorView>,
) -> Option<ErrorView>
    decreases values.len(),
{
    if values.len() == 0 {
        None
    } else {
        match first_failure(values.drop_last(), check) {
            Some(e) => Some(e),
            None => check(values.drop_last(), values.last()),
        }
    }
}

proof fn lemma_first_failure_step(
    values: Seq<Seq<char>>,
    check: spec_fn(Seq<Seq<char>>, Seq<char>) -> Option<ErrorView>,
    i: int,
)
    requires
        0 <= i < values.len(),
    ensures
        first_failure(values.take(i + 1), check) == match first_failure(values.take(i), check) {
            Some(e) => Some(e),
            None => check(values.take(i), values[i]),
        },
{
    assert(values.take(i + 1).drop_last() =~= values.take(i));
}

proof fn lemma_first_failure_stops(
    values: Seq<Seq<char>>,
    check: spec_fn(Seq<Seq<char>>, Seq<char>) -> Option<ErrorView>,
    n: int,
)
    requires
        0 <= n <= values.len(),
        first_failure(values.take(n), check) is Some,
    ensures
        first_failure(values, check) == first_failure(values.take(n), check),
    decreases values.len() - n,
{
    if n < values.len() {
        lemma_first_failure_step(values, check, n);
        lemma_first_failure_stops(values, check, n + 1);
    } else {
        assert(values.take(n) =~= values);
    }
}

proof fn lemma_first_failure_none(
    values: Seq<Seq<char>>,
    check: spec_fn(Seq<Seq<char>>, Seq<char>) -> Option<ErrorView>,
    i: int,
)
    requires
        first_failure(values, check) is None,
        0 <= i < values.len(),
    ensures
        check(values.take(i), values[i]) is None,
    decreases values.len(),
{
    let rest = values.drop_last();
    if i == values.len() - 1 {
        assert(rest =~= values.take(i));
    } else {
        lemma_first_failure_none(rest, check, i);
        assert(rest.take(i) =~= values.take(i));
    }
}

/// The error of an invalid timestamp in the field `field`, if `value` is one.
pub open spec fn timestamp_failure(value: i64, field: Seq<char>) -> Option<ErrorView> {
    if valid_timestamp(value) {
        None
    } else {
        Some(invalid_payload(field + " must be a non-negative safe integer"@))
    }
}

/// The error of a blank value in the field `field`, if `value` is blank.
pub open spec fn non_empty_failure(value: Seq<char>, field: Seq<char>) -> Option<ErrorView> {
    if blank(value) {
        Some(invalid_payload(field + " must not be empty"@))
    } else {
        None
    }
}

/// The failure of one identifier of the list `field`, given those before it.
pub open spec fn list_item_failure(field: Seq<char>, before: Seq<Seq<char>>, value: Seq<char>) -> Option<ErrorView> {
    if blank(value) {
        Some(invalid_payload(field + " must not be empty"@))
    } else if value == "*"@ || before.contains(value) {
        Some(invalid_payload(field + " has wildcard or duplicates"@))
    } else {
        None
    }
}

pub open spec fn list_item_check(field: Seq<char>) -> spec_fn(Seq<Seq<char>>, Seq<char>) -> Option<ErrorView> {
    |before: Seq<Seq<char>>, value: Seq<char>| list_item_failure(field, before, value)
}

/// The first failing check of the list of identifiers `field`.
pub open spec fn strings_failure(values: Seq<Seq<char>>, field: Seq<char>, allow_empty: bool) -> Option<ErrorView> {
    if !allow_empty && values.len() == 0 {
        Some(invalid_payload(field + " must be a non-empty array"@))
    } else {
        first_failure(values, list_item_check(field))
    }
}

/// The error of a value of the field `field` that is not an HTTPS URL, if it
/// is not.
pub open spec fn https_failure(value: Seq<char>, field: Seq<char>) -> Option<ErrorView> {
    if https_url(value) {
        None
    } else {
        Some(invalid_payload(field + " must be an HTTPS URL"@))
    }
}

pub open spec fn https_check(field: Seq<char>) -> spec_fn(Seq<Seq<char>>, Seq<char>) -> Option<ErrorView> {
    |before: Seq<Seq<char>>, value: Seq<char>| https_failure(value, field)
}

/// The error of a value that is not a serialized HTTPS origin, if it is not.
pub open spec fn origin_failure(value: Seq<char>) -> Option<ErrorView> {
    if !https_url(value) {
        https_failure(value, "origin"@)
    } else if !serialized_origin(value) {
        Some(invalid_payload("origin must be a serialized HTTPS origin"@))
    } else {
        None
    }
}

pub open spec fn origin_check() -> spec_fn(Seq<Seq<char>>, Seq<char>) -> Option<ErrorView> {
    |before: Seq<Seq<char>>, value: Seq<char>| origin_failure(value)
}

/// The first failing check of a delegation id.
pub open spec fn delegation_id_failure(value: Seq<char>) -> Option<ErrorView> {
    if blank(value) {
        non_empty_failure(value, "delegation id"@)
    } else if value == "."@ || value == ".."@ {
        Some(invalid_payload("delegation id cannot be a dot segment"@))
    } else {
        None
    }
}

fn fail<T>(message: &str) -> (res: Result<T>)
    ensures
        res matches Err(e) && e@ == invalid_payload(message@),
{
    Err(SdkError::InvalidPayload(message.to_owned()))
}

fn fail_field<T>(field: &str, message: &str) -> (res: Result<T>)
    ensures
        res matches Err(e) && e@ == invalid_payload(field@ + message@),
{
    let mut text = field.to_owned();
    crate::text::push_str(&mut text, message);
    Err(SdkError::InvalidPayload(text))
}

fn timestamp(value: i64, field: &str) -> (res: Result<()>)
    ensures
        res is Ok <==> valid_timestamp(value),
        fails_with(res, timestamp_failure(value, field@)),
{
    if value < 0 || value > MAX_SAFE_TIMESTAMP {
        return fail_field(field, " must be a non-negative safe integer");
    }
    Ok(())
}

fn validate_non_empty(value: &str, field: &str) -> (res: Result<()>)
    ensures
        res is Ok <==> !blank(value@),
        fails_with(res, non_empty_failure(value@, field@)),
{
    if is_blank(value) {
        fail_field(field, " must not be empty")
    } else {
        Ok(())
    }
}

fn strings(values: &Vec<String>, field: &str, allow_empty: bool) -> (res: Result<()>)
    ensures
        res is Ok <==> valid_strings(views(values@), allow_empty),
        fails_with(res, strings_failure(views(values@), field@, allow_empty)),
{
    let ghost all = views(values@);
    let ghost check = list_item_check(field@);
    if !allow_empty && values.len() == 0 {
        return fail_field(field, " must be a non-empty array");
    }
    assert(all.take(0) =~= Seq::<Seq<char>>::empty());
    let mut i: usize = 0;
    while i < values.len()
        invariant
            i <= values@.len(),
            all == views(values@),
            check == list_item_check(field@),
            allow_empty || values@.len() > 0,
            forall|k: int| 0 <= k < i ==> !blank(#[trigger] views(values@)[k]) && views(values@)[k] != "*"@,
            forall|k: int, j: int| 0 <= j < k < i ==> #[trigger] views(values@)[j] != #[trigger] views(values@)[k],
            first_failure(all.take(i as int), check) is None,
        decreases values@.len() - i,
    {
        assert(views(values@)[i as int] == values@[i as int]@);
        proof {
            lemma_first_failure_step(all, check, i as int);
        }
        if is_blank(values[i].as_str()) {
            proof {
                lemma_first_failure_stops(all, check, i + 1);
            }
            return fail_field(field, " must not be empty");
        }
        if str_eq(values[i].as_str(), "*") {
            proof {
                lemma_first_failure_stops(all, check, i + 1);
            }
            return fail_field(field, " has wildcard or duplicates");
        }
        let mut j: usize = 0;
        let mut repeated = false;
        while j < i && !repeated
            invariant
                j <= i < values@.len(),
                all == views(values@),
                repeated ==> all.take(i as int).contains(all[i as int]),
                !repeated ==> forall|k: int| 0 <= k < j ==> #[trigger] views(values@)[k] != views(values@)[i as int],
            decreases i - j,
        {
            assert(views(values@)[j as int] == values@[j as int]@);
            if str_eq(values[j].as_str(), values[i].as_str()) {
                assert(views(values@)[i as int] == values@[i as int]@);
                assert(all.take(i as int)[j as int] == all[i as int]);
                repeated = true;
            }
            j += 1;
        }
        if repeated {
            proof {
                lemma_first_failure_stops(all, check, i + 1);
            }
            return fail_field(field, " has wildcard or duplicates");
        }
        proof {
            if all.take(i as int).contains(all[i as int]) {
                let k = choose|k: int| 0 <= k < i && all.take(i as int)[k] == all[i as int];
                assert(views(values@)[k] != views(values@)[i as int]);
            }
        }
        i += 1;
    }
    assert(all.take(values@.len() as int) =~= all);
    Ok(())
}

fn validate_https_url(value: &str, field: &str) -> (res: Result<()>)
    ensures
        res is Ok <==> https_url(value@),
        fails_with(res, https_failure(value@, field@)),
{
    match parse_url(value) {
        Some(parsed) => {
            if str_eq(parsed.scheme.as_str(), "https") && parsed.has_host {
                Ok(())
            } else {
                fail_field(field, " must be an HTTPS URL")
            }
        },
        None => fail_field(field, " must be an HTTPS URL"),
    }
}

fn validate_origin(value: &str) -> (res: Result<()>)
    ensures
        res is Ok <==> serialized_origin(value@),
        fails_with(res, origin_failure(value@)),
{
    validate_https_url(value, "origin")?;
    match parse_url(value) {
        Some(parsed) => {
            if !str_eq(parsed.origin.as_str(), value) {
                return fail("origin must be a serialized HTTPS origin");
            }
            Ok(())
        },
        None => fail("invalid origin"),
    }
}

fn origins(values: &Vec<String>) -> (res: Result<()>)
    ensures
        res is Ok <==> all_origins(views(values@)),
        fails_with(res, first_failure(views(values@), origin_check())),
{
    let ghost all = views(values@);
    assert(all.take(0) =~= Seq::<Seq<char>>::empty());
    let mut i: usize = 0;
    while i < values.len()
        invariant
            i <= values@.len(),
            all == views(values@),
            forall|k: int| 0 <= k < i ==> serialized_origin(#[trigger] views(values@)[k]),
            first_failure(all.take(i as int), origin_check()) is None,
        decreases values@.len() - i,
    {
        assert(views(values@)[i as int] == values@[i as int]@);
        proof {
            lemma_first_failure_step(all, origin_check(), i as int);
        }
        match validate_origin(values[i].as_str()) {
            Ok(()) => {},
            Err(e) => {
                proof {
                    lemma_first_failure_stops(all, origin_check(), i + 1);
                }
                return Err(e);
            },
        }
        i += 1;
    }
    assert(all.take(values@.len() as int) =~= all);
    Ok(())
}

fn https_urls(values: &Vec<String>, field: &str) -> (res: Result<()>)
    ensures
        res is Ok <==> all_https(views(values@)),
        fails_with(res, first_failure(views(values@), https_check(field@))),
{
    let ghost all = views(values@);
    let ghost check = https_check(field@);
    assert(all.take(0) =~= Seq::<Seq<char>>::empty());
    let mut i: usize = 0;
    while i < values.len()
        invariant
            i <= values@.len(),
            all == views(values@),
            forall|k: int| 0 <= k < i ==> https_url(#[trigger] views(values@)[k]),
            check == https_check(field@),
            first_failure(all.take(i as int), check) is None,
        decreases values@.len() - i,
    {
        assert(views(values@)[i as int] == values@[i as int]@);
        proof {
            lemma_first_failure_step(all, check, i as int);
        }
        match validate_https_url(values[i].as_str(), field) {
            Ok(()) => {},
            Err(e) => {
                proof {
                    lemma_first_failure_stops(all, check, i + 1);
                }
                return Err(e);
            },
        }
        i += 1;
    }
    assert(all.take(values@.len() as int) =~= all);
    Ok(())
}

pub fn validate_delegation_id(value: &str) -> (res: Result<()>)
    ensures
        res is Ok <==> valid_delegation_id(value@),
        fails_with(res, delegation_id_failure(value@)),
{
    validate_non_empty(value, "delegation id")?;
    if str_eq(value, ".") || str_eq(value, "..") {
        return fail("delegation id cannot be a dot segment");
    }
    Ok(())
}

/// A revocation names a valid delegation id and an HTTPS principal.
pub open spec fn valid_revoke_payload(payload: DelegationRevokePayload) -> bool {
    valid_delegation_id(payload.id@) && https_url(payload.principal_id@)
}

/// The first failing check of a revocation payload.
pub open spec fn revoke_payload_failure(payload: DelegationRevokePayload) -> Option<ErrorView> {
    if delegation_id_failure(payload.id@) is Some {
        delegation_id_failure(payload.id@)
    } else {
        https_failure(payload.principal_id@, "principal_id"@)
    }
}

pub fn validate_delegation_revoke_payload(payload: &DelegationRevokePayload) -> (res: Result<()>)
    ensures
        res is Ok <==> valid_revoke_payload(*payload),
        fails_with(res, revoke_payload_failure(*payload)),
{
    validate_delegation_id(payload.id.as_str())?;
    validate_https_url(payload.principal_id.as_str(), "principal_id")
}

fn validate_principal_descriptor(principal: &PrincipalDescriptor) -> (res: Result<()>)
    ensures
        res is Ok <==> https_url(principal.id@),
        fails_with(res, https_failure(principal.id@, "principal.id"@)),
{
    validate_https_url(principal.id.as_str(), "principal.id")
}

/// The first failing check of a delegation query request.
pub open spec fn query_request_failure(request: DelegationQueryRequest, allow_enumeration: bool) -> Option<ErrorView> {
    if allow_enumeration && request.subject is None && request.principal_id is None {
        Some(invalid_payload("query must include at least one of subject or principal_id"@))
    } else if !allow_enumeration && (request.subject is None || request.principal_id is None) {
        Some(invalid_payload("public query must include both subject and principal_id"@))
    } else if request.principal_id matches Some(p) && !https_url(p@) {
        https_failure(request.principal_id.unwrap()@, "principal_id"@)
    } else if request.id matches Some(id) && !valid_delegation_id(id@) {
        delegation_id_failure(request.id.unwrap()@)
    } else if request.limit == Some(0u32) {
        Some(invalid_payload("limit must be a positive integer"@))
    } else {
        None
    }
}

/// A public delegation query is an existence check and must include both
/// `subject` and `principal_id`; with `allow_enumeration` one of them
/// suffices. `limit`, when present, is positive. A subject always names a
/// key, so it never fails the query.
pub fn validate_delegation_query_request(request: &DelegationQueryRequest, allow_enumeration: bool) -> (res: Result<()>)
    ensures
        fails_with(res, query_request_failure(*request, allow_enumeration)),
        (request.principal_id matches Some(p) ==> https_url(p@)) && (request.id matches Some(id) ==> valid_delegation_id(
            id@,
        )) ==> (res is Ok <==> (if allow_enumeration {
            request.subject is Some || request.principal_id is Some
        } else {
            request.subject is Some && request.principal_id is Some
        }) && request.limit != Some(0u32)),
{
    if allow_enumeration {
        if request.subject.is_none() && request.principal_id.is_none() {
            return fail("query must include at least one of subject or principal_id");
        }
    } else if request.subject.is_none() || request.principal_id.is_none() {
        return fail("public query must include both subject and principal_id");
    }
    if let Some(subject) = &request.subject {
        subject.public_key_bytes()?;
    }
    if let Some(principal_id) = &request.principal_id {
        validate_https_url(principal_id.as_str(), "principal_id")?;
    }
    if let Some(id) = &request.id {
        validate_delegation_id(id.as_str())?;
    }
    if request.limit == Some(0u32) {
        return fail("limit must be a positive integer");
    }
    Ok(())
}

} // verus!

verus! {

/// The first failing check of a delegation authority.
pub open spec fn authority_value_failure(delegation: Option<DelegationAuthority>) -> Option<ErrorView> {
    match delegation {
        Some(DelegationAuthority::Unrestricted(v)) => if v@ == "*"@ {
            None
        } else {
            Some(invalid_payload("invalid delegation policy"@))
        },
        Some(DelegationAuthority::Restricted(policy)) => if strings_failure(views(policy.scopes@), "scopes"@, false) is Some {
            strings_failure(views(policy.scopes@), "scopes"@, false)
        } else if strings_failure(views(policy.audiences@), "audiences"@, false) is Some {
            strings_failure(views(policy.audiences@), "audiences"@, false)
        } else {
            first_failure(views(policy.audiences@), origin_check())
        },
        None => None,
    }
}

/// The first failing check of a retired controller's retirement fields.
pub open spec fn retirement_failure(controller: Controller) -> Option<ErrorView> {
    match controller.retired_at {
        None => Some(invalid_payload("retired_at required"@)),
        Some(end) => if timestamp_failure(end, "retired_at"@) is Some {
            timestamp_failure(end, "retired_at"@)
        } else if end < controller.valid_from {
            Some(invalid_payload("retired_at precedes valid_from"@))
        } else {
            match controller.invalid_from {
                Some(cutoff) => if timestamp_failure(cutoff, "invalid_from"@) is Some {
                    timestamp_failure(cutoff, "invalid_from"@)
                } else if cutoff < controller.valid_from || cutoff > end {
                    Some(invalid_payload("invalid compromise interval"@))
                } else {
                    None
                },
                None => None,
            }
        },
    }
}

/// The checks of a controller record after its key: source, times, name,
/// delegation policy and retirement fields.
pub open spec fn controller_fields_failure(controller: Controller, retired: bool) -> Option<ErrorView> {
    if controller.source@ != "local"@ && origin_failure(controller.source@) is Some {
        origin_failure(controller.source@)
    } else if timestamp_failure(controller.valid_from, "valid_from"@) is Some {
        timestamp_failure(controller.valid_from, "valid_from"@)
    } else if controller.name matches Some(n) && blank(n@) {
        non_empty_failure(controller.name.unwrap()@, "name"@)
    } else if authority_value_failure(controller.delegation) is Some {
        authority_value_failure(controller.delegation)
    } else if retired {
        retirement_failure(controller)
    } else if controller.retired_at is Some || controller.invalid_from is Some {
        Some(invalid_payload("current controller has retirement fields"@))
    } else {
        None
    }
}

/// The first failing check of a controller record.
pub open spec fn controller_failure(controller: Controller, retired: bool) -> Option<ErrorView> {
    match agent_key_result(controller.id@) {
        Err(e) => Some(e@),
        Ok(_) => controller_fields_failure(controller, retired),
    }
}

pub fn validate_controller(controller: &Controller, retired: bool) -> (res: Result<()>)
    ensures
        fails_with(res, controller_failure(*controller, retired)),
{
    controller.id.public_key_bytes()?;
    if !str_eq(controller.source.as_str(), "local") {
        validate_origin(controller.source.as_str())?;
    }
    timestamp(controller.valid_from, "valid_from")?;
    if let Some(name) = &controller.name {
        validate_non_empty(name.as_str(), "name")?;
    }
    match &controller.delegation {
        Some(DelegationAuthority::Unrestricted(value)) => {
            if !str_eq(value.as_str(), "*") {
                return fail("invalid delegation policy");
            }
        },
        Some(DelegationAuthority::Restricted(policy)) => {
            strings(&policy.scopes, "scopes", false)?;
            strings(&policy.audiences, "audiences", false)?;
            origins(&policy.audiences)?;
        },
        None => {},
    }
    if retired {
        let end = match controller.retired_at {
            Some(end) => end,
            None => {
                return fail("retired_at required");
            },
        };
        timestamp(end, "retired_at")?;
        if end < controller.valid_from {
            return fail("retired_at precedes valid_from");
        }
        if let Some(cutoff) = controller.invalid_from {
            timestamp(cutoff, "invalid_from")?;
            if cutoff < controller.valid_from || cutoff > end {
                return fail("invalid compromise interval");
            }
        }
    } else if controller.retired_at.is_some() || controller.invalid_from.is_some() {
        return fail("current controller has retirement fields");
    }
    Ok(())
}

/// The checks of a grant after its subject key, over the grant's parts.
pub open spec fn grant_terms_failure(
    scopes: Seq<Seq<char>>,
    audiences: Seq<Seq<char>>,
    not_before: Option<i64>,
    expires_at: Option<i64>,
    created_at: Option<i64>,
) -> Option<ErrorView> {
    if strings_failure(scopes, "scopes"@, false) is Some {
        strings_failure(scopes, "scopes"@, false)
    } else if strings_failure(audiences, "audiences"@, false) is Some {
        strings_failure(audiences, "audiences"@, false)
    } else if first_failure(audiences, origin_check()) is Some {
        first_failure(audiences, origin_check())
    } else if created_at matches Some(t) && !valid_timestamp(t) {
        timestamp_failure(created_at.unwrap(), "created_at"@)
    } else if not_before matches Some(t) && !valid_timestamp(t) {
        timestamp_failure(not_before.unwrap(), "not_before"@)
    } else if expires_at matches Some(t) && !valid_timestamp(t) {
        timestamp_failure(expires_at.unwrap(), "expires_at"@)
    } else if expires_at matches Some(e) && not_before matches Some(n) && e <= n {
        Some(invalid_payload("expires_at must be greater than not_before"@))
    } else if expires_at matches Some(e) && created_at matches Some(c) && e <= c {
        Some(invalid_payload("expires_at must be greater than created_at"@))
    } else {
        None
    }
}

/// The first failing check of a grant, over its parts.
pub open spec fn grant_parts_failure(
    id: Seq<char>,
    principal_id: Seq<char>,
    subject: Seq<char>,
    scopes: Seq<Seq<char>>,
    audiences: Seq<Seq<char>>,
    not_before: Option<i64>,
    expires_at: Option<i64>,
    created_at: Option<i64>,
) -> Option<ErrorView> {
    if delegation_id_failure(id) is Some {
        delegation_id_failure(id)
    } else if https_failure(principal_id, "principal.id"@) is Some {
        https_failure(principal_id, "principal.id"@)
    } else {
        match agent_key_result(subject) {
            Err(e) => Some(e@),
            Ok(_) => grant_terms_failure(scopes, audiences, not_before, expires_at, created_at),
        }
    }
}

/// The first failing check of a grant payload.
pub open spec fn grant_failure(payload: DelegationGrantPayload, created_at: Option<i64>) -> Option<ErrorView> {
    grant_parts_failure(
        payload.id@,
        payload.principal.id@,
        payload.subject@,
        views(payload.scopes@),
        views(payload.audiences@),
        payload.not_before,
        payload.expires_at,
        created_at,
    )
}

fn validate_grant_parts(
    id: &str,
    principal: &PrincipalDescriptor,
    subject: &AgentId,
    scopes: &Vec<String>,
    audiences: &Vec<String>,
    not_before: Option<i64>,
    expires_at: Option<i64>,
    created_at: Option<i64>,
) -> (res: Result<()>)
    ensures
        fails_with(
            res,
            grant_parts_failure(
                id@,
                principal.id@,
                subject@,
                views(scopes@),
                views(audiences@),
                not_before,
                expires_at,
                created_at,
            ),
        ),
{
    validate_delegation_id(id)?;
    validate_principal_descriptor(principal)?;
    subject.public_key_bytes()?;
    strings(scopes, "scopes", false)?;
    strings(audiences, "audiences", false)?;
    origins(audiences)?;
    if let Some(time) = created_at {
        timestamp(time, "created_at")?;
    }
    if let Some(time) = not_before {
        timestamp(time, "not_before")?;
    }
    if let Some(time) = expires_at {
        timestamp(time, "expires_at")?;
    }
    if let Some(expires_at) = expires_at {
        if let Some(not_before) = not_before {
            if expires_at <= not_before {
                return fail("expires_at must be greater than not_before");
            }
        }
        if let Some(created_at) = created_at {
            if expires_at <= created_at {
                return fail("expires_at must be greater than created_at");
            }
        }
    }
    Ok(())
}

pub fn validate_delegation_grant_payload(payload: &DelegationGrantPayload, created_at: Option<i64>) -> (res: Result<()>)
    ensures
        fails_with(res, grant_failure(*payload, created_at)),
{
    validate_grant_parts(
        payload.id.as_str(),
        &payload.principal,
        &payload.subject,
        &payload.scopes,
        &payload.audiences,
        payload.not_before,
        payload.expires_at,
        created_at,
    )
}

/// The error of a principal document read at another URL than its `id`.
pub open spec fn resolution_failure(document: PrincipalDocument, resolved_url: Seq<char>) -> Option<ErrorView> {
    if document.id@ == resolved_url {
        None
    } else {
        Some(invalid_payload("principal document id "@ + document.id@ + " was served at "@ + resolved_url))
    }
}

/// A principal document binds controllers only when read at its own `id`.
pub fn validate_principal_resolution(document: &PrincipalDocument, resolved_url: &str) -> (res: Result<()>)
    ensures
        res is Ok <==> document.id@ == resolved_url@,
        fails_with(res, resolution_failure(*document, resolved_url@)),
{
    if str_eq(document.id.as_str(), resolved_url) {
        Ok(())
    } else {
        let mut message = "principal document id ".to_owned();
        crate::text::push_str(&mut message, document.id.as_str());
        crate::text::push_str(&mut message, " was served at ");
        crate::text::push_str(&mut message, resolved_url);
        Err(SdkError::InvalidPayload(message))
    }
}

/// Whether `url` is an alias the principal itself lists.
pub fn is_principal_alias(document: &PrincipalDocument, url: &str) -> (r: bool)
    ensures
        r == views(document.aliases@).contains(url@),
{
    contains_str(&document.aliases, url)
}

} // verus!

verus! {

/// Number of controller records, current and retired.
pub open spec fn record_count(document: PrincipalDocument) -> int {
    (document.controllers@.len() + document.retired_controllers@.len()) as int
}

/// The `k`-th controller record, current ones first, and whether it is retired.
pub open spec fn record_at(document: PrincipalDocument, k: int) -> (Controller, bool) {
    if k < document.controllers@.len() {
        (document.controllers@[k], false)
    } else {
        (document.retired_controllers@[k - document.controllers@.len()], true)
    }
}

/// The `k`-th record passes its own checks, repeats no earlier key and
/// predates the document's update.
pub open spec fn record_ok(document: PrincipalDocument, k: int) -> bool {
    let (c, retired) = record_at(document, k);
    &&& controller_failure(c, retired) is None
    &&& forall|j: int| 0 <= j < k ==> (#[trigger] record_at(document, j)).0.id@ != c.id@
    &&& c.valid_from <= document.updated_at
    &&& c.retired_at matches Some(t) ==> t <= document.updated_at
}

/// `k` is the first record that fails.
pub open spec fn first_bad_record(document: PrincipalDocument, k: int) -> bool {
    &&& 0 <= k < record_count(document)
    &&& !record_ok(document, k)
    &&& forall|j: int| 0 <= j < k ==> #[trigger] record_ok(document, j)
}

/// The failure of the first failing controller record, if any.
pub open spec fn records_failure(document: PrincipalDocument) -> Option<ErrorView> {
    if exists|k: int| first_bad_record(document, k) {
        let k = choose|k: int| first_bad_record(document, k);
        let (c, retired) = record_at(document, k);
        match controller_failure(c, retired) {
            Some(e) => Some(e),
            None => if exists|j: int| 0 <= j < k && (#[trigger] record_at(document, j)).0.id@ == c.id@ {
                Some(invalid_payload("duplicate controller key"@))
            } else {
                Some(invalid_payload("controller timestamp exceeds document update"@))
            },
        }
    } else {
        None
    }
}

/// The first failing check of a principal document.
pub open spec fn principal_document_failure(document: PrincipalDocument) -> Option<ErrorView> {
    if !https_url(document.id@) {
        https_failure(document.id@, "principal.id"@)
    } else if document.protocol@ != PROTOCOL@ {
        Some(invalid_payload("invalid principal protocol"@))
    } else if !valid_timestamp(document.updated_at) {
        timestamp_failure(document.updated_at, "updated_at"@)
    } else if records_failure(document) is Some {
        records_failure(document)
    } else if strings_failure(views(document.aliases@), "aliases"@, true) is Some {
        strings_failure(views(document.aliases@), "aliases"@, true)
    } else if first_failure(views(document.aliases@), https_check("alias"@)) is Some {
        first_failure(views(document.aliases@), https_check("alias"@))
    } else if document.avatar_url matches Some(u) && !https_url(u@) {
        https_failure(document.avatar_url.unwrap()@, "avatar_url"@)
    } else if document.delegation_query_url matches Some(u) && !https_url(u@) {
        https_failure(document.delegation_query_url.unwrap()@, "delegation_query_url"@)
    } else {
        None
    }
}

/// A principal document that passes every check.
pub open spec fn valid_principal_document(document: PrincipalDocument) -> bool {
    principal_document_failure(document) is None
}

proof fn lemma_first_bad_unique(document: PrincipalDocument, k: int)
    requires
        first_bad_record(document, k),
    ensures
        exists|j: int| first_bad_record(document, j),
        (choose|j: int| first_bad_record(document, j)) == k,
{
    let c = choose|j: int| first_bad_record(document, j);
    if c < k {
        assert(record_ok(document, c));
    } else if c > k {
        assert(record_ok(document, k));
    }
}

proof fn lemma_no_bad_record(document: PrincipalDocument)
    requires
        forall|j: int| 0 <= j < record_count(document) ==> #[trigger] record_ok(document, j),
    ensures
        records_failure(document) is None,
{
    if exists|k: int| first_bad_record(document, k) {
        let k = choose|k: int| first_bad_record(document, k);
        assert(record_ok(document, k));
    }
}

fn record_of(document: &PrincipalDocument, k: u128) -> (r: (&Controller, bool))
    requires
        k < record_count(*document),
    ensures
        (*r.0, r.1) == record_at(*document, k as int),
{
    let n = document.controllers.len();
    if k < n as u128 {
        (&document.controllers[k as usize], false)
    } else {
        let d: u128 = k - n as u128;
        let m = document.retired_controllers.len();
        assert(d < m as u128);
        let idx = d as usize;
        assert(idx as int == k - document.controllers@.len());
        (&document.retired_controllers[idx], true)
    }
}

fn validate_records(document: &PrincipalDocument) -> (res: Result<()>)
    ensures
        fails_with(res, records_failure(*document)),
{
    let total: u128 = document.controllers.len() as u128 + document.retired_controllers.len() as u128;
    let mut k: u128 = 0;
    while k < total
        invariant
            total == record_count(*document),
            k <= total,
            forall|j: int| 0 <= j < k ==> #[trigger] record_ok(*document, j),
        decreases total - k,
    {
        let (c, retired) = record_of(document, k);
        match validate_controller(c, retired) {
            Ok(()) => {},
            Err(e) => {
                proof {
                    lemma_first_bad_unique(*document, k as int);
                }
                return Err(e);
            },
        }
        let mut j: u128 = 0;
        while j < k
            invariant
                k < total == record_count(*document),
                j <= k,
                forall|i: int| 0 <= i < k ==> #[trigger] record_ok(*document, i),
                controller_failure(*c, retired) is None,
                (*c, retired) == record_at(*document, k as int),
                forall|i: int| 0 <= i < j ==> (#[trigger] record_at(*document, i)).0.id@ != c.id@,
            decreases k - j,
        {
            let (other, _) = record_of(document, j);
            if other.id.same_as(&c.id) {
                proof {
                    assert(!record_ok(*document, k as int));
                    lemma_first_bad_unique(*document, k as int);
                }
                return fail("duplicate controller key");
            }
            j += 1;
        }
        let late_retirement = match c.retired_at {
            Some(v) => v > document.updated_at,
            None => false,
        };
        if c.valid_from > document.updated_at || late_retirement {
            proof {
                lemma_first_bad_unique(*document, k as int);
            }
            return fail("controller timestamp exceeds document update");
        }
        k += 1;
    }
    proof {
        lemma_no_bad_record(*document);
    }
    Ok(())
}

pub fn validate_principal_document(document: &PrincipalDocument) -> (res: Result<()>)
    ensures
        fails_with(res, principal_document_failure(*document)),
        res is Ok <==> valid_principal_document(*document),
{
    validate_https_url(document.id.as_str(), "principal.id")?;
    if !str_eq(document.protocol.as_str(), PROTOCOL) {
        return fail("invalid principal protocol");
    }
    timestamp(document.updated_at, "updated_at")?;
    validate_records(document)?;
    strings(&document.aliases, "aliases", true)?;
    https_urls(&document.aliases, "alias")?;
    if let Some(url) = &document.avatar_url {
        validate_https_url(url.as_str(), "avatar_url")?;
    }
    if let Some(url) = &document.delegation_query_url {
        validate_https_url(url.as_str(), "delegation_query_url")?;
    }
    Ok(())
}

} // verus!

verus! {

/// The failure of the event's type and payload: a grant must carry a grant
/// payload and a revocation a revocation payload.
pub open spec fn kind_payload_failure(event: Event<DelegationPayload>) -> Option<ErrorView> {
    if event.kind@ == DELEGATION_GRANT@ {
        match event.payload {
            DelegationPayload::Grant(p) => grant_failure(p, Some(event.created_at)),
            DelegationPayload::Revoke(_) => Some(shape_mismatch_error()),
        }
    } else if event.kind@ == DELEGATION_REVOKE@ {
        match event.payload {
            DelegationPayload::Revoke(p) => revoke_payload_failure(p),
            DelegationPayload::Grant(_) => Some(shape_mismatch_error()),
        }
    } else {
        Some(ErrorView::InvalidEventType { expected: DELEGATION_GRANT@ + " or "@ + DELEGATION_REVOKE@, actual: event.kind@ })
    }
}

/// The error of an event whose type and payload disagree.
pub open spec fn shape_mismatch_error() -> ErrorView {
    invalid_payload("delegation event type does not match payload shape"@)
}

/// The members of a principal descriptor's JSON: `id`, then `type` and
/// `name` when set.
pub open spec fn principal_members(p: PrincipalDescriptor) -> Seq<Seq<char>> {
    seq![member_json("id"@, json_string_literal(p.id@))] + opt_string_member("type"@, p.kind) + opt_string_member(
        "name"@,
        p.name,
    )
}

/// The JSON text of a principal descriptor.
pub open spec fn principal_json(p: PrincipalDescriptor) -> Seq<char> {
    object_json(principal_members(p))
}

/// Writes the JSON text of a principal descriptor.
pub fn principal_json_text(p: &PrincipalDescriptor) -> (text: String)
    ensures
        text@ == principal_json(*p),
{
    let mut members: Vec<String> = Vec::new();
    let id = json_quote(p.id.as_str());
    push_member(&mut members, "id", id.as_str());
    push_opt_string_member(&mut members, "type", &p.kind);
    push_opt_string_member(&mut members, "name", &p.name);
    assert(views(members@) =~= principal_members(*p));
    object_text(&members)
}

/// The member `name` with an integer value when it is set.
pub open spec fn opt_int_member(name: Seq<char>, value: Option<i64>) -> Seq<Seq<char>> {
    match value {
        Some(n) => seq![member_json(name, decimal(n as int))],
        None => Seq::empty(),
    }
}

/// The members of a grant payload's JSON, as its fields are written: the
/// optional ones only when set, the constraints only when there are some.
pub open spec fn grant_members(g: DelegationGrantPayload) -> Seq<Seq<char>> {
    seq![
        member_json("id"@, json_string_literal(g.id@)),
        member_json("principal"@, principal_json(g.principal)),
        member_json("subject"@, json_string_literal(g.subject@)),
    ] + opt_string_member("relationship"@, g.relationship) + seq![
        member_json("scopes"@, strings_json(views(g.scopes@))),
        member_json("audiences"@, strings_json(views(g.audiences@))),
    ] + (if g.constraints@.len() > 0 {
        seq![member_json("constraints"@, pairs_json(pair_views(g.constraints@)))]
    } else {
        Seq::empty()
    }) + opt_int_member("not_before"@, g.not_before) + opt_int_member("expires_at"@, g.expires_at)
}

/// The members of a revocation payload's JSON.
pub open spec fn revoke_members(r: DelegationRevokePayload) -> Seq<Seq<char>> {
    seq![
        member_json("id"@, json_string_literal(r.id@)),
        member_json("principal_id"@, json_string_literal(r.principal_id@)),
    ] + opt_string_member("reason"@, r.reason)
}

/// The JSON text of a delegation payload: the grant or revocation object.
pub open spec fn delegation_payload_json(p: DelegationPayload) -> Seq<char> {
    match p {
        DelegationPayload::Grant(g) => object_json(grant_members(g)),
        DelegationPayload::Revoke(r) => object_json(revoke_members(r)),
    }
}

fn push_opt_int_member(members: &mut Vec<String>, name: &str, value: Option<i64>)
    ensures
        views(final(members)@) == views(old(members)@) + opt_int_member(name@, value),
{
    match value {
        Some(n) => {
            let t = i64_decimal(n);
            push_member(members, name, t.as_str());
        },
        None => {},
    }
    assert(views(members@) =~= views(old(members)@) + opt_int_member(name@, value));
}

/// Writes the JSON text of a delegation payload, which its event's hash and
/// signature cover.
pub fn delegation_payload_json_text(p: &DelegationPayload) -> (text: String)
    ensures
        text@ == delegation_payload_json(*p),
{
    let mut members: Vec<String> = Vec::new();
    match p {
        DelegationPayload::Grant(g) => {
            let t = json_quote(g.id.as_str());
            push_member(&mut members, "id", t.as_str());
            let t = principal_json_text(&g.principal);
            push_member(&mut members, "principal", t.as_str());
            let t = json_quote(g.subject.as_str());
            push_member(&mut members, "subject", t.as_str());
            push_opt_string_member(&mut members, "relationship", &g.relationship);
            let t = strings_text(&g.scopes);
            push_member(&mut members, "scopes", t.as_str());
            let t = strings_text(&g.audiences);
            push_member(&mut members, "audiences", t.as_str());
            if g.constraints.len() > 0 {
                let t = pairs_text(&g.constraints);
                push_member(&mut members, "constraints", t.as_str());
            }
            push_opt_int_member(&mut members, "not_before", g.not_before);
            push_opt_int_member(&mut members, "expires_at", g.expires_at);
            assert(views(members@) =~= grant_members(*g));
        },
        DelegationPayload::Revoke(r) => {
            let t = json_quote(r.id.as_str());
            push_member(&mut members, "id", t.as_str());
            let t = json_quote(r.principal_id.as_str());
            push_member(&mut members, "principal_id", t.as_str());
            push_opt_string_member(&mut members, "reason", &r.reason);
            assert(views(members@) =~= revoke_members(*r));
        },
    }
    object_text(&members)
}

/// The first failing check of a delegation envelope.
pub open spec fn delegation_envelope_failure(envelope: Envelope<DelegationPayload>) -> Option<ErrorView> {
    match crate::identity::envelope_failure(envelope, delegation_payload_json(envelope.event.payload)) {
        Some(e) => Some(e),
        None => if envelope.event.protocol@ != PROTOCOL@ {
            Some(ErrorView::InvalidEventProtocol { expected: PROTOCOL@, actual: envelope.event.protocol@ })
        } else {
            kind_payload_failure(envelope.event)
        },
    }
}

fn validate_kind_payload(event: &Event<DelegationPayload>) -> (res: Result<()>)
    ensures
        fails_with(res, kind_payload_failure(*event)),
{
    if str_eq(event.kind.as_str(), DELEGATION_GRANT) {
        match &event.payload {
            DelegationPayload::Grant(payload) => validate_delegation_grant_payload(payload, Some(event.created_at)),
            DelegationPayload::Revoke(_) => fail("delegation event type does not match payload shape"),
        }
    } else if str_eq(event.kind.as_str(), DELEGATION_REVOKE) {
        match &event.payload {
            DelegationPayload::Revoke(payload) => validate_delegation_revoke_payload(payload),
            DelegationPayload::Grant(_) => fail("delegation event type does not match payload shape"),
        }
    } else {
        let mut expected = DELEGATION_GRANT.to_owned();
        crate::text::push_str(&mut expected, " or ");
        crate::text::push_str(&mut expected, DELEGATION_REVOKE);
        Err(SdkError::InvalidEventType { expected, actual: event.kind.clone() })
    }
}

/// Verifies a delegation envelope: hash and signature, protocol, type and
/// payload. The hash and signature are checked over the payload's JSON text.
pub fn validate_delegation_envelope(envelope: &Envelope<DelegationPayload>) -> (res: Result<()>)
    ensures
        fails_with(res, delegation_envelope_failure(*envelope)),
{
    let payload_json = delegation_payload_json_text(&envelope.event.payload);
    crate::identity::verify_envelope(envelope, payload_json.as_str())?;
    if !str_eq(envelope.event.protocol.as_str(), PROTOCOL) {
        return Err(SdkError::InvalidEventProtocol {
            expected: PROTOCOL.to_owned(),
            actual: envelope.event.protocol.clone(),
        });
    }
    validate_kind_payload(&envelope.event)
}

/// The delegation id and principal id an event is about.
pub open spec fn event_identity(event: Event<DelegationPayload>) -> (Seq<char>, Seq<char>) {
    match event.payload {
        DelegationPayload::Grant(p) => (p.id@, p.principal.id@),
        DelegationPayload::Revoke(p) => (p.id@, p.principal_id@),
    }
}

fn identity_of(event: &Event<DelegationPayload>) -> (r: (&str, &str))
    ensures
        (r.0@, r.1@) == event_identity(*event),
{
    match &event.payload {
        DelegationPayload::Grant(p) => (p.id.as_str(), p.principal.id.as_str()),
        DelegationPayload::Revoke(p) => (p.id.as_str(), p.principal_id.as_str()),
    }
}

/// The first failing check of the previous credential an event builds on.
pub open spec fn previous_failure(event: Event<DelegationPayload>, previous: Option<DelegationCredential>) -> Option<ErrorView> {
    match previous {
        Some(p) => match agent_key_result(p.owner_controller@) {
            Err(e) => Some(e@),
            Ok(_) => if !valid_timestamp(p.accepted_at) {
                timestamp_failure(p.accepted_at, "previous.accepted_at"@)
            } else if p.id@ != event_identity(event).0 || p.principal.id@ != event_identity(event).1 || p.protocol@
                != PROTOCOL@ {
                Some(invalid_payload("previous credential identity mismatch"@))
            } else {
                None
            },
        },
        None => if event.kind@ == DELEGATION_REVOKE@ {
            Some(missing_previous_error())
        } else {
            None
        },
    }
}

/// The error of a revocation without the credential it revokes.
pub open spec fn missing_previous_error() -> ErrorView {
    invalid_payload("revocation requires previous credential"@)
}

fn check_previous(event: &Event<DelegationPayload>, previous: Option<&DelegationCredential>) -> (res: Result<()>)
    ensures
        fails_with(res, previous_failure(*event, opt_cred(previous))),
{
    let (id, principal) = identity_of(event);
    if let Some(previous) = previous {
        previous.owner_controller.public_key_bytes()?;
        timestamp(previous.accepted_at, "previous.accepted_at")?;
        if !str_eq(previous.id.as_str(), id) || !str_eq(previous.principal.id.as_str(), principal)
            || !str_eq(previous.protocol.as_str(), PROTOCOL) {
            return fail("previous credential identity mismatch");
        }
    } else if str_eq(event.kind.as_str(), DELEGATION_REVOKE) {
        return fail("revocation requires previous credential");
    }
    Ok(())
}

/// The previous credential as a value.
pub open spec fn opt_cred(previous: Option<&DelegationCredential>) -> Option<DelegationCredential> {
    match previous {
        Some(p) => Some(*p),
        None => None,
    }
}

/// A controller with full authority: its delegation is the literal `*`.
pub open spec fn is_unrestricted(c: Controller) -> bool {
    c.delegation matches Some(DelegationAuthority::Unrestricted(v)) && v@ == "*"@
}

fn unrestricted(c: &Controller) -> (r: bool)
    ensures
        r == is_unrestricted(*c),
{
    match &c.delegation {
        Some(DelegationAuthority::Unrestricted(v)) => str_eq(v.as_str(), "*"),
        _ => false,
    }
}

/// The first controller of `list` whose key is `actor`.
pub open spec fn find_controller(list: Seq<Controller>, actor: Seq<char>) -> Option<Controller>
    decreases list.len(),
{
    if list.len() == 0 {
        None
    } else if list[0].id@ == actor {
        Some(list[0])
    } else {
        find_controller(list.drop_first(), actor)
    }
}

fn find_in<'a>(list: &'a Vec<Controller>, actor: &AgentId) -> (r: Option<&'a Controller>)
    ensures
        match r {
            Some(c) => find_controller(list@, actor@) == Some(*c),
            None => find_controller(list@, actor@) is None,
        },
{
    let mut i: usize = 0;
    assert(list@.skip(0) =~= list@);
    while i < list.len()
        invariant
            i <= list@.len(),
            find_controller(list@.skip(i as int), actor@) == find_controller(list@, actor@),
        decreases list@.len() - i,
    {
        if list[i].id.same_as(actor) {
            return Some(&list[i]);
        }
        assert(list@.skip(i as int).drop_first() =~= list@.skip(i + 1));
        i += 1;
    }
    None
}

/// The controller whose authority an event by `actor` rests on: a current
/// one, or, for a historical check, a retired one.
pub open spec fn authority_controller(document: PrincipalDocument, actor: Seq<char>, historical: bool) -> Option<Controller> {
    match find_controller(document.controllers@, actor) {
        Some(c) => Some(c),
        None => if historical { find_controller(document.retired_controllers@, actor) } else { None },
    }
}

/// `time` lies in the controller's authority interval.
pub open spec fn within_authority(c: Controller, time: i64) -> bool {
    &&& time >= c.valid_from
    &&& c.retired_at matches Some(t) ==> time < t
    &&& c.invalid_from matches Some(t) ==> time < t
}

/// Every element of `a` occurs in `b`.
pub open spec fn subset(a: Seq<Seq<char>>, b: Seq<Seq<char>>) -> bool {
    forall|i: int| 0 <= i < a.len() ==> b.contains(#[trigger] a[i])
}

/// The error of an actor without delegation authority.
pub open spec fn no_authority_error() -> ErrorView {
    invalid_payload("actor has no delegation authority"@)
}

/// The error of an acceptance earlier than the one it follows.
pub open spec fn order_reversed_error() -> ErrorView {
    invalid_payload("acceptance order reversed"@)
}

/// The error of a controller acting on a credential another owns.
pub open spec fn not_owner_error() -> ErrorView {
    invalid_payload("controller does not own credential"@)
}

/// The error of a grant that expired by its acceptance.
pub open spec fn expired_error() -> ErrorView {
    invalid_payload("grant expired at acceptance"@)
}

/// The checks of the authority rule after the controller is found.
pub open spec fn authority_rest_failure(
    event: Event<DelegationPayload>,
    c: Controller,
    accepted_at: i64,
    previous: Option<DelegationCredential>,
) -> Option<ErrorView> {
    if c.delegation is None {
        Some(no_authority_error())
    } else if !within_authority(c, event.created_at) || !within_authority(c, accepted_at) {
        Some(invalid_payload("outside controller authority interval"@))
    } else if previous_failure(event, previous) is Some {
        previous_failure(event, previous)
    } else if previous matches Some(p) && accepted_at < p.accepted_at {
        Some(order_reversed_error())
    } else if previous matches Some(p) && !is_unrestricted(c) && p.owner_controller@ != event.actor@ {
        Some(not_owner_error())
    } else {
        match event.payload {
            DelegationPayload::Grant(g) => if g.expires_at matches Some(t) && t <= accepted_at {
                Some(expired_error())
            } else if c.delegation matches Some(DelegationAuthority::Restricted(policy)) && (!subset(
                views(g.scopes@),
                views(policy.scopes@),
            ) || !subset(views(g.audiences@), views(policy.audiences@))) {
                Some(invalid_payload("grant exceeds controller delegation policy"@))
            } else {
                None
            },
            DelegationPayload::Revoke(_) => None,
        }
    }
}

/// The failure of an event's payload under the authority rule: a grant type
/// with a valid grant, or a revocation type with a valid revocation.
pub open spec fn authority_payload_failure(event: Event<DelegationPayload>) -> Option<ErrorView> {
    match event.payload {
        DelegationPayload::Grant(p) => if event.kind@ == DELEGATION_GRANT@ {
            grant_failure(p, Some(event.created_at))
        } else {
            Some(invalid_payload("event type does not match payload"@))
        },
        DelegationPayload::Revoke(p) => if event.kind@ == DELEGATION_REVOKE@ {
            revoke_payload_failure(p)
        } else {
            Some(invalid_payload("event type does not match payload"@))
        },
    }
}

/// The first failing check of the authority rule for an event.
pub open spec fn authority_failure(
    event: Event<DelegationPayload>,
    document: PrincipalDocument,
    accepted_at: i64,
    previous: Option<DelegationCredential>,
    historical: bool,
) -> Option<ErrorView> {
    if principal_document_failure(document) is Some {
        principal_document_failure(document)
    } else if !valid_timestamp(accepted_at) {
        timestamp_failure(accepted_at, "accepted_at"@)
    } else if !valid_timestamp(event.created_at) {
        timestamp_failure(event.created_at, "created_at"@)
    } else if agent_key_result(event.actor@) is Err {
        Some(agent_key_result(event.actor@)->Err_0@)
    } else if event.protocol@ != PROTOCOL@ {
        Some(invalid_payload("invalid event protocol"@))
    } else if authority_payload_failure(event) is Some {
        authority_payload_failure(event)
    } else if event_identity(event).1 != document.id@ {
        Some(invalid_payload("principal mismatch"@))
    } else {
        match authority_controller(document, event.actor@, historical) {
            None => Some(no_authority_error()),
            Some(c) => authority_rest_failure(event, c, accepted_at, previous),
        }
    }
}

fn all_contained(a: &Vec<String>, b: &Vec<String>) -> (r: bool)
    ensures
        r == subset(views(a@), views(b@)),
{
    let mut i: usize = 0;
    while i < a.len()
        invariant
            i <= a@.len(),
            forall|k: int| 0 <= k < i ==> views(b@).contains(#[trigger] views(a@)[k]),
        decreases a@.len() - i,
    {
        assert(views(a@)[i as int] == a@[i as int]@);
        if !contains_str(b, a[i].as_str()) {
            return false;
        }
        i += 1;
    }
    true
}

fn within(c: &Controller, time: i64) -> (r: bool)
    ensures
        r == within_authority(*c, time),
{
    if time < c.valid_from {
        return false;
    }
    if let Some(t) = c.retired_at {
        if time >= t {
            return false;
        }
    }
    if let Some(t) = c.invalid_from {
        if time >= t {
            return false;
        }
    }
    true
}

fn check_authority(
    event: &Event<DelegationPayload>,
    document: &PrincipalDocument,
    accepted_at: i64,
    previous: Option<&DelegationCredential>,
    historical: bool,
) -> (res: Result<()>)
    ensures
        fails_with(res, authority_failure(*event, *document, accepted_at, opt_cred(previous), historical)),
{
    validate_principal_document(document)?;
    timestamp(accepted_at, "accepted_at")?;
    timestamp(event.created_at, "created_at")?;
    event.actor.public_key_bytes()?;
    if !str_eq(event.protocol.as_str(), PROTOCOL) {
        return fail("invalid event protocol");
    }
    match &event.payload {
        DelegationPayload::Grant(payload) => {
            if !str_eq(event.kind.as_str(), DELEGATION_GRANT) {
                return fail("event type does not match payload");
            }
            validate_delegation_grant_payload(payload, Some(event.created_at))?;
        },
        DelegationPayload::Revoke(payload) => {
            if !str_eq(event.kind.as_str(), DELEGATION_REVOKE) {
                return fail("event type does not match payload");
            }
            validate_delegation_revoke_payload(payload)?;
        },
    }
    let (_, principal) = identity_of(event);
    if !str_eq(principal, document.id.as_str()) {
        return fail("principal mismatch");
    }
    let found = match find_in(&document.controllers, &event.actor) {
        Some(c) => Some(c),
        None => if historical { find_in(&document.retired_controllers, &event.actor) } else { None },
    };
    let c = match found {
        Some(c) => c,
        None => {
            return fail("actor has no delegation authority");
        },
    };
    if c.delegation.is_none() {
        return fail("actor has no delegation authority");
    }
    if !within(c, event.created_at) || !within(c, accepted_at) {
        return fail("outside controller authority interval");
    }
    check_previous(event, previous)?;
    if let Some(previous) = previous {
        if accepted_at < previous.accepted_at {
            return fail("acceptance order reversed");
        }
        if !unrestricted(c) && !previous.owner_controller.same_as(&event.actor) {
            return fail("controller does not own credential");
        }
    }
    if let DelegationPayload::Grant(payload) = &event.payload {
        if let Some(t) = payload.expires_at {
            if t <= accepted_at {
                return fail("grant expired at acceptance");
            }
        }
        if let Some(DelegationAuthority::Restricted(policy)) = &c.delegation {
            if !all_contained(&payload.scopes, &policy.scopes) || !all_contained(&payload.audiences, &policy.audiences) {
                return fail("grant exceeds controller delegation policy");
            }
        }
    }
    Ok(())
}

/// Pre-signing policy check over a trusted document and state: the actor is a
/// current controller with delegation authority over this principal at both
/// times, owns the credential unless unrestricted, and a grant stays within
/// its policy. No signature, HTTP, cache-age, window or nonce check is made.
pub fn validate_delegation_event_authority(
    event: &Event<DelegationPayload>,
    document: &PrincipalDocument,
    accepted_at: i64,
    previous: Option<&DelegationCredential>,
) -> (res: Result<()>)
    ensures
        fails_with(res, authority_failure(*event, *document, accepted_at, opt_cred(previous), false)),
{
    check_authority(event, document, accepted_at, previous, false)
}

/// The first failing check of an acceptance.
pub open spec fn acceptance_failure(
    envelope: Envelope<DelegationPayload>,
    document: PrincipalDocument,
    resolved_url: Seq<char>,
    accepted_at: i64,
    previous: Option<DelegationCredential>,
) -> Option<ErrorView> {
    if delegation_envelope_failure(envelope) is Some {
        delegation_envelope_failure(envelope)
    } else if document.id@ != resolved_url {
        resolution_failure(document, resolved_url)
    } else {
        authority_failure(envelope.event, document, accepted_at, previous, false)
    }
}

/// Verifies an envelope, the authoritative read of the principal document and
/// the authority rule at `accepted_at`.
pub fn validate_delegation_acceptance(
    envelope: &Envelope<DelegationPayload>,
    document: &PrincipalDocument,
    resolved_url: &str,
    accepted_at: i64,
    previous: Option<&DelegationCredential>,
) -> (res: Result<()>)
    ensures
        fails_with(res, acceptance_failure(*envelope, *document, resolved_url@, accepted_at, opt_cred(previous))),
{
    validate_delegation_envelope(envelope)?;
    validate_principal_resolution(document, resolved_url)?;
    check_authority(&envelope.event, document, accepted_at, previous, false)
}

/// The first failing check of a historical validation.
pub open spec fn historical_failure(
    envelope: Envelope<DelegationPayload>,
    acceptance: DelegationAcceptance,
    document: PrincipalDocument,
    resolved_url: Seq<char>,
    previous: Option<DelegationCredential>,
) -> Option<ErrorView> {
    if delegation_envelope_failure(envelope) is Some {
        delegation_envelope_failure(envelope)
    } else if acceptance.event_id@ != envelope.hash@ {
        Some(invalid_payload("acceptance hash mismatch"@))
    } else if document.id@ != resolved_url {
        resolution_failure(document, resolved_url)
    } else {
        authority_failure(envelope.event, document, acceptance.accepted_at, previous, true)
    }
}

/// Binds caller-authenticated acceptance evidence to the exact event hash and
/// checks the authority rule at the recorded acceptance time, retired
/// controllers included.
pub fn validate_historical_delegation(
    envelope: &Envelope<DelegationPayload>,
    acceptance: &DelegationAcceptance,
    document: &PrincipalDocument,
    resolved_url: &str,
    previous: Option<&DelegationCredential>,
) -> (res: Result<()>)
    ensures
        fails_with(res, historical_failure(*envelope, *acceptance, *document, resolved_url@, opt_cred(previous))),
{
    validate_delegation_envelope(envelope)?;
    if !str_eq(acceptance.event_id.as_str(), envelope.hash.as_str()) {
        return fail("acceptance hash mismatch");
    }
    validate_principal_resolution(document, resolved_url)?;
    check_authority(&envelope.event, document, acceptance.accepted_at, previous, true)
}

} // verus!

verus! {

/// The fields of a principal descriptor as values.
pub open spec fn principal_view(p: PrincipalDescriptor) -> (Seq<char>, Option<Seq<char>>, Option<Seq<char>>) {
    (p.id@, crate::text::opt_view(p.kind), crate::text::opt_view(p.name))
}

/// The terms a credential carries from its grant, as values.
pub open spec fn credential_terms(c: DelegationCredential) -> (
    Seq<char>,
    (Seq<char>, Option<Seq<char>>, Option<Seq<char>>),
    Seq<char>,
    Option<Seq<char>>,
    Seq<Seq<char>>,
    Seq<Seq<char>>,
    Seq<(Seq<char>, Seq<char>)>,
    Option<i64>,
    Option<i64>,
) {
    (
        c.id@,
        principal_view(c.principal),
        c.subject@,
        crate::text::opt_view(c.relationship),
        views(c.scopes@),
        views(c.audiences@),
        crate::text::pair_views(c.constraints@),
        c.not_before,
        c.expires_at,
    )
}

/// The terms of a grant payload, in the shape of `credential_terms`.
pub open spec fn grant_terms(g: DelegationGrantPayload) -> (
    Seq<char>,
    (Seq<char>, Option<Seq<char>>, Option<Seq<char>>),
    Seq<char>,
    Option<Seq<char>>,
    Seq<Seq<char>>,
    Seq<Seq<char>>,
    Seq<(Seq<char>, Seq<char>)>,
    Option<i64>,
    Option<i64>,
) {
    (
        g.id@,
        principal_view(g.principal),
        g.subject@,
        crate::text::opt_view(g.relationship),
        views(g.scopes@),
        views(g.audiences@),
        crate::text::pair_views(g.constraints@),
        g.not_before,
        g.expires_at,
    )
}

impl Clone for DelegationCredential {
    fn clone(&self) -> (copy: Self)
        ensures
            credential_terms(copy) == credential_terms(*self),
            copy.protocol@ == self.protocol@,
            copy.controller@ == self.controller@,
            copy.owner_controller@ == self.owner_controller@,
            copy.grant_event_id@ == self.grant_event_id@,
            copy.accepted_at == self.accepted_at,
            copy.status == self.status,
            copy.updated_at == self.updated_at,
            copy.event_id@ == self.event_id@,
    {
        DelegationCredential {
            id: self.id.clone(),
            protocol: self.protocol.clone(),
            principal: self.principal.duplicate(),
            controller: self.controller.clone(),
            owner_controller: self.owner_controller.clone(),
            grant_event_id: self.grant_event_id.clone(),
            accepted_at: self.accepted_at,
            subject: self.subject.clone(),
            relationship: crate::text::clone_opt(&self.relationship),
            scopes: crate::text::clone_strings(&self.scopes),
            audiences: crate::text::clone_strings(&self.audiences),
            constraints: crate::text::clone_pairs(&self.constraints),
            not_before: self.not_before,
            expires_at: self.expires_at,
            status: self.status,
            updated_at: self.updated_at,
            event_id: self.event_id.clone(),
        }
    }
}

/// The credential a grant materializes into: the grant's terms, the signer as
/// controller, the owner, and the event hash as grant and last event.
pub open spec fn granted_credential(
    c: DelegationCredential,
    g: DelegationGrantPayload,
    actor: Seq<char>,
    owner: Seq<char>,
    hash: Seq<char>,
    status: DelegationStatus,
    accepted_at: i64,
) -> bool {
    &&& credential_terms(c) == grant_terms(g)
    &&& c.protocol@ == PROTOCOL@
    &&& c.controller@ == actor
    &&& c.owner_controller@ == owner
    &&& c.grant_event_id@ == hash
    &&& c.accepted_at == accepted_at
    &&& c.status == status
    &&& c.updated_at == accepted_at
    &&& c.event_id@ == hash
}

/// The credential a revocation makes of the previous one: the same terms,
/// owner, protocol and grant event, with the revoking controller, status
/// `Revoked`, and the revocation's hash and time.
pub open spec fn revoked_credential(
    c: DelegationCredential,
    p: DelegationCredential,
    actor: Seq<char>,
    hash: Seq<char>,
    accepted_at: i64,
) -> bool {
    &&& credential_terms(c) == credential_terms(p)
    &&& c.protocol@ == p.protocol@
    &&& c.owner_controller@ == p.owner_controller@
    &&& c.grant_event_id@ == p.grant_event_id@
    &&& c.controller@ == actor
    &&& c.status == DelegationStatus::Revoked
    &&& c.event_id@ == hash
    &&& c.accepted_at == accepted_at
    &&& c.updated_at == accepted_at
}

/// The first failing check of materializing a credential.
pub open spec fn materialize_failure(
    envelope: Envelope<DelegationPayload>,
    accepted_at: i64,
    previous: Option<DelegationCredential>,
) -> Option<ErrorView> {
    if delegation_envelope_failure(envelope) is Some {
        delegation_envelope_failure(envelope)
    } else if !valid_timestamp(accepted_at) {
        timestamp_failure(accepted_at, "accepted_at"@)
    } else if previous_failure(envelope.event, previous) is Some {
        previous_failure(envelope.event, previous)
    } else if previous matches Some(p) && accepted_at < p.accepted_at {
        Some(order_reversed_error())
    } else {
        match envelope.event.payload {
            DelegationPayload::Revoke(_) => if previous is None {
                Some(missing_previous_error())
            } else {
                None
            },
            DelegationPayload::Grant(g) => if g.expires_at matches Some(t) && t <= accepted_at {
                Some(expired_error())
            } else {
                None
            },
        }
    }
}

/// The credential that materializing gives when it succeeds.
pub open spec fn materialized(
    c: DelegationCredential,
    envelope: Envelope<DelegationPayload>,
    status: DelegationStatus,
    accepted_at: i64,
    previous: Option<DelegationCredential>,
) -> bool {
    match envelope.event.payload {
        DelegationPayload::Grant(g) => granted_credential(
            c,
            g,
            envelope.event.actor@,
            match previous {
                Some(p) => p.owner_controller@,
                None => envelope.event.actor@,
            },
            envelope.hash@,
            status,
            accepted_at,
        ),
        DelegationPayload::Revoke(_) => previous matches Some(p) && revoked_credential(
            c,
            p,
            envelope.event.actor@,
            envelope.hash@,
            accepted_at,
        ),
    }
}

/// Folds a verified delegation event into the credential it makes: a grant
/// builds a fresh credential (owned by the previous owner when it replaces
/// one), a revocation marks the previous credential revoked.
pub fn materialize_delegation_credential(
    envelope: &Envelope<DelegationPayload>,
    status: DelegationStatus,
    accepted_at: i64,
    previous: Option<&DelegationCredential>,
) -> (res: Result<DelegationCredential>)
    ensures
        fails_with(res, materialize_failure(*envelope, accepted_at, opt_cred(previous))),
        res matches Ok(c) ==> materialized(c, *envelope, status, accepted_at, opt_cred(previous)),
{
    validate_delegation_envelope(envelope)?;
    timestamp(accepted_at, "accepted_at")?;
    check_previous(&envelope.event, previous)?;
    if let Some(p) = previous {
        if accepted_at < p.accepted_at {
            return fail("acceptance order reversed");
        }
    }
    match &envelope.event.payload {
        DelegationPayload::Revoke(_) => {
            let p = match previous {
                Some(p) => p,
                None => {
                    return fail("revocation requires previous credential");
                },
            };
            let mut result = p.clone();
            result.controller = envelope.event.actor.clone();
            result.status = DelegationStatus::Revoked;
            result.event_id = envelope.hash.clone();
            result.accepted_at = accepted_at;
            result.updated_at = accepted_at;
            Ok(result)
        },
        DelegationPayload::Grant(payload) => {
            if let Some(t) = payload.expires_at {
                if t <= accepted_at {
                    return fail("grant expired at acceptance");
                }
            }
            let owner_controller = match previous {
                Some(p) => p.owner_controller.clone(),
                None => envelope.event.actor.clone(),
            };
            Ok(DelegationCredential {
                id: payload.id.clone(),
                protocol: PROTOCOL.to_owned(),
                principal: payload.principal.duplicate(),
                controller: envelope.event.actor.clone(),
                owner_controller,
                grant_event_id: envelope.hash.clone(),
                accepted_at,
                subject: payload.subject.clone(),
                relationship: crate::text::clone_opt(&payload.relationship),
                scopes: crate::text::clone_strings(&payload.scopes),
                audiences: crate::text::clone_strings(&payload.audiences),
                constraints: crate::text::clone_pairs(&payload.constraints),
                not_before: payload.not_before,
                expires_at: payload.expires_at,
                status,
                updated_at: accepted_at,
                event_id: envelope.hash.clone(),
            })
        },
    }
}

/// The first failing check of a controller listing credentials.
pub open spec fn enumeration_failure(
    document: PrincipalDocument,
    actor: Seq<char>,
    now: i64,
    owner: Seq<char>,
) -> Option<ErrorView> {
    if principal_document_failure(document) is Some {
        principal_document_failure(document)
    } else if !valid_timestamp(now) {
        timestamp_failure(now, "now"@)
    } else if agent_key_result(owner) is Err {
        Some(agent_key_result(owner)->Err_0@)
    } else {
        match find_controller(document.controllers@, actor) {
            None => Some(invalid_payload("controller cannot enumerate"@)),
            Some(c) => if now < c.valid_from || c.delegation is None {
                Some(invalid_payload("controller cannot enumerate"@))
            } else if !is_unrestricted(c) && owner != actor {
                Some(not_owner_error())
            } else {
                None
            },
        }
    }
}

/// Whether `actor`, a current controller with delegation authority, may list
/// a credential owned by `owner`: an unrestricted controller sees all, any
/// other only its own.
pub fn validate_controller_enumeration(
    document: &PrincipalDocument,
    actor: &AgentId,
    now: i64,
    owner: &AgentId,
) -> (res: Result<()>)
    ensures
        fails_with(res, enumeration_failure(*document, actor@, now, owner@)),
{
    validate_principal_document(document)?;
    timestamp(now, "now")?;
    owner.public_key_bytes()?;
    let c = match find_in(&document.controllers, actor) {
        Some(c) => c,
        None => {
            return fail("controller cannot enumerate");
        },
    };
    if now < c.valid_from || c.delegation.is_none() {
        return fail("controller cannot enumerate");
    }
    if !unrestricted(c) && !owner.same_as(actor) {
        return fail("controller does not own credential");
    }
    Ok(())
}

/// The credential's state permits use at `audience` and `now`.
pub open spec fn usable_now(c: DelegationCredential, audience: Seq<char>, now: i64) -> bool {
    &&& c.protocol@ == PROTOCOL@
    &&& c.status == DelegationStatus::Active
    &&& views(c.audiences@).contains(audience)
    &&& c.not_before matches Some(t) ==> now >= t
    &&& c.expires_at matches Some(t) ==> now < t
}

/// The first failing check of using a credential.
pub open spec fn use_failure(c: DelegationCredential, audience: Seq<char>, now: i64) -> Option<ErrorView> {
    if !serialized_origin(audience) {
        origin_failure(audience)
    } else if !valid_timestamp(now) {
        timestamp_failure(now, "now"@)
    } else if grant_parts_failure(
        c.id@,
        c.principal.id@,
        c.subject@,
        views(c.scopes@),
        views(c.audiences@),
        c.not_before,
        c.expires_at,
        None,
    ) is Some {
        grant_parts_failure(
            c.id@,
            c.principal.id@,
            c.subject@,
            views(c.scopes@),
            views(c.audiences@),
            c.not_before,
            c.expires_at,
            None,
        )
    } else if !usable_now(c, audience, now) {
        Some(invalid_payload("delegation is not usable"@))
    } else {
        None
    }
}

/// Audience, status and time only, after signature and history checks. The
/// caller still authenticates the subject and enforces scopes and constraints.
pub fn validate_delegation_use(credential: &DelegationCredential, audience: &str, now: i64) -> (res: Result<()>)
    ensures
        fails_with(res, use_failure(*credential, audience@, now)),
{
    validate_origin(audience)?;
    timestamp(now, "now")?;
    validate_grant_parts(
        credential.id.as_str(),
        &credential.principal,
        &credential.subject,
        &credential.scopes,
        &credential.audiences,
        credential.not_before,
        credential.expires_at,
        None,
    )?;
    let usable = str_eq(credential.protocol.as_str(), PROTOCOL) && credential.status == DelegationStatus::Active
        && contains_str(&credential.audiences, audience) && match credential.not_before {
        Some(t) => now >= t,
        None => true,
    } && match credential.expires_at {
        Some(t) => now < t,
        None => true,
    };
    if !usable {
        return fail("delegation is not usable");
    }
    Ok(())
}

} // verus!

verus! {

/// A credential materialized as active from an accepted grant is usable at
/// each of its audiences at any valid time inside its validity window.
pub proof fn lemma_granted_credential_usable(
    envelope: Envelope<DelegationPayload>,
    accepted_at: i64,
    previous: Option<DelegationCredential>,
    credential: DelegationCredential,
    audience: Seq<char>,
    now: i64,
)
    requires
        envelope.event.payload is Grant,
        materialize_failure(envelope, accepted_at, previous) is None,
        materialized(credential, envelope, DelegationStatus::Active, accepted_at, previous),
        views(credential.audiences@).contains(audience),
        valid_timestamp(now),
        credential.not_before matches Some(t) ==> now >= t,
        credential.expires_at matches Some(t) ==> now < t,
    ensures
        use_failure(credential, audience, now) is None,
{
    let g = envelope.event.payload->Grant_0;
    assert(kind_payload_failure(envelope.event) is None);
    assert(grant_failure(g, Some(envelope.event.created_at)) is None);
    let i = choose|i: int| 0 <= i < views(credential.audiences@).len() && views(credential.audiences@)[i] == audience;
    lemma_first_failure_none(views(g.audiences@), origin_check(), i);
    assert(serialized_origin(views(g.audiences@)[i]));
}

/// A revocation leaves a credential that no audience can use at any time.
pub proof fn lemma_revoked_credential_unusable(
    envelope: Envelope<DelegationPayload>,
    status: DelegationStatus,
    accepted_at: i64,
    previous: Option<DelegationCredential>,
    credential: DelegationCredential,
    audience: Seq<char>,
    now: i64,
)
    requires
        envelope.event.payload is Revoke,
        materialized(credential, envelope, status, accepted_at, previous),
    ensures
        credential.status == DelegationStatus::Revoked,
        use_failure(credential, audience, now) is Some,
{
}

/// A credential is usable only while it is active, at one of its own
/// audiences, and inside its validity window: never before `not_before`,
/// never at or after `expires_at`.
pub proof fn lemma_use_stays_inside_window(credential: DelegationCredential, audience: Seq<char>, now: i64)
    ensures
        use_failure(credential, audience, now) is None ==> {
            &&& credential.status == DelegationStatus::Active
            &&& views(credential.audiences@).contains(audience)
            &&& credential.not_before matches Some(t) ==> t <= now
            &&& credential.expires_at matches Some(t) ==> now < t
        },
        credential.not_before matches Some(t) && now < t ==> use_failure(credential, audience, now) is Some,
        credential.expires_at matches Some(t) && t <= now ==> use_failure(credential, audience, now) is Some,
        credential.status != DelegationStatus::Active ==> use_failure(credential, audience, now) is Some,
{
}

/// An event accepted under the current document also passes the historical
/// check with acceptance evidence bound to its hash and acceptance time.
pub proof fn lemma_acceptance_implies_historical(
    envelope: Envelope<DelegationPayload>,
    document: PrincipalDocument,
    resolved_url: Seq<char>,
    accepted_at: i64,
    previous: Option<DelegationCredential>,
    acceptance: DelegationAcceptance,
)
    requires
        acceptance_failure(envelope, document, resolved_url, accepted_at, previous) is None,
        acceptance.event_id@ == envelope.hash@,
        acceptance.accepted_at == accepted_at,
    ensures
        historical_failure(envelope, acceptance, document, resolved_url, previous) is None,
{
}

/// An unrestricted current controller may list the credentials of every
/// owner that a restricted controller may list.
pub proof fn lemma_unrestricted_enumerates_all(
    document: PrincipalDocument,
    actor: Seq<char>,
    other: Seq<char>,
    now: i64,
    owner: Seq<char>,
)
    requires
        enumeration_failure(document, other, now, owner) is None,
        find_controller(document.controllers@, actor) matches Some(c) && is_unrestricted(c) && now >= c.valid_from,
    ensures
        enumeration_failure(document, actor, now, owner) is None,
{
}

/// Some record of the document fails its checks, so a first one does.
proof fn lemma_some_bad_record(document: PrincipalDocument, k: int)
    requires
        0 <= k < record_count(document),
        !record_ok(document, k),
    ensures
        exists|j: int| first_bad_record(document, j),
    decreases k,
{
    if forall|j: int| 0 <= j < k ==> #[trigger] record_ok(document, j) {
        assert(first_bad_record(document, k));
    } else {
        let j = choose|j: int| 0 <= j < k && !record_ok(document, j);
        lemma_some_bad_record(document, j);
    }
}

/// Keys cannot be reused within one principal: the controller records of a
/// valid principal document, current and retired, have distinct keys.
pub proof fn lemma_principal_keys_distinct(document: PrincipalDocument, i: int, k: int)
    requires
        valid_principal_document(document),
        0 <= i < k < record_count(document),
    ensures
        record_at(document, i).0.id@ != record_at(document, k).0.id@,
{
    assert(records_failure(document) is None);
    if !record_ok(document, k) {
        lemma_some_bad_record(document, k);
    }
    assert(record_ok(document, k));
}

/// Retired records preserve history, not permission: an actor that is no
/// current controller fails the authority check for new events.
pub proof fn lemma_retired_controllers_cannot_act(
    event: Event<DelegationPayload>,
    document: PrincipalDocument,
    accepted_at: i64,
    previous: Option<DelegationCredential>,
)
    requires
        find_controller(document.controllers@, event.actor@) is None,
    ensures
        authority_failure(event, document, accepted_at, previous, false) is Some,
{
}

/// A grant accepted under a restricted controller stays within its policy:
/// every scope and every audience of the grant is one the policy lists.
pub proof fn lemma_grant_within_policy(
    event: Event<DelegationPayload>,
    document: PrincipalDocument,
    accepted_at: i64,
    previous: Option<DelegationCredential>,
    historical: bool,
)
    requires
        authority_failure(event, document, accepted_at, previous, historical) is None,
        event.payload is Grant,
        authority_controller(document, event.actor@, historical) matches Some(c) && c.delegation matches Some(
            DelegationAuthority::Restricted(_),
        ),
    ensures
        ({
            let g = event.payload->Grant_0;
            let policy = authority_controller(document, event.actor@, historical)->Some_0.delegation->Some_0->Restricted_0;
            subset(views(g.scopes@), views(policy.scopes@)) && subset(views(g.audiences@), views(policy.audiences@))
        }),
{
}

} // verus!
