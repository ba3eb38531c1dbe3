//! Agent Profile Protocol 1.0: profile update events and the profiles they
//! materialize into.

use vstd::prelude::*;

use crate::codec::{json_quote, json_string_literal};
use crate::delegation::{principal_json, principal_json_text, principal_view, PrincipalDescriptor};
use crate::json_text::{
    array_json, array_text, member_json, object_json, object_text, opt_string_member, pairs_json, pairs_text, push_member,
    push_opt_string_member, strings_json, strings_text,
};
use crate::error::{fails_with, ErrorView, Result, SdkError};
use crate::identity::{AgentId, Envelope, Event};
use crate::text::{clone_opt, clone_pairs, clone_strings, opt_view, pair_views, str_eq, views};

verus! {

pub const PROTOCOL: &'static str = "agent-profile/1.0";

pub const PROFILE_UPDATE: &'static str = "profile.update";

pub struct ServiceEndpoint {
    pub kind: String,
    pub url: String,
    pub protocols: Vec<String>,
}

#[derive(Clone, Copy, Debug, PartialEq, Eq, Structural)]
pub enum ProfileLinkRel {
    Homepage,
    Documentation,
    SourceCode,
    Social,
    Browser,
}

pub struct ProfileLink {
    pub name: String,
    pub url: String,
    pub rel: ProfileLinkRel,
}

pub struct ProfileDelegationHint {
    pub id: Option<String>,
    pub principal: PrincipalDescriptor,
    pub relationship: Option<String>,
    pub scopes: Vec<String>,
    pub credential_url: String,
    pub status_url: Option<String>,
}

impl View for ServiceEndpoint {
    type V = (Seq<char>, Seq<char>, Seq<Seq<char>>);

    open spec fn view(&self) -> (Seq<char>, Seq<char>, Seq<Seq<char>>) {
        (self.kind@, self.url@, views(self.protocols@))
    }
}

impl View for ProfileLink {
    type V = (Seq<char>, Seq<char>, ProfileLinkRel);

    open spec fn view(&self) -> (Seq<char>, Seq<char>, ProfileLinkRel) {
        (self.name@, self.url@, self.rel)
    }
}

/// A delegation hint as values.
pub type HintView = (
    Option<Seq<char>>,
    (Seq<char>, Option<Seq<char>>, Option<Seq<char>>),
    Option<Seq<char>>,
    Seq<Seq<char>>,
    Seq<char>,
    Option<Seq<char>>,
);

impl View for ProfileDelegationHint {
    type V = HintView;

    open spec fn view(&self) -> HintView {
        (
            opt_view(self.id),
            principal_view(self.principal),
            opt_view(self.relationship),
            views(self.scopes@),
            self.credential_url@,
            opt_view(self.status_url),
        )
    }
}

/// The views of service endpoints.
pub open spec fn endpoint_views(s: Seq<ServiceEndpoint>) -> Seq<(Seq<char>, Seq<char>, Seq<Seq<char>>)> {
    s.map_values(|e: ServiceEndpoint| e@)
}

/// The views of links.
pub open spec fn link_views(s: Seq<ProfileLink>) -> Seq<(Seq<char>, Seq<char>, ProfileLinkRel)> {
    s.map_values(|l: ProfileLink| l@)
}

/// The views of delegation hints.
pub open spec fn hint_views(s: Seq<ProfileDelegationHint>) -> Seq<HintView> {
    s.map_values(|h: ProfileDelegationHint| h@)
}

fn clone_endpoints(v: &Vec<ServiceEndpoint>) -> (r: Vec<ServiceEndpoint>)
    ensures
        endpoint_views(r@) == endpoint_views(v@),
{
    let mut r: Vec<ServiceEndpoint> = Vec::new();
    let mut i: usize = 0;
    while i < v.len()
        invariant
            i <= v@.len(),
            endpoint_views(r@) == endpoint_views(v@.take(i as int)),
        decreases v@.len() - i,
    {
        let e = ServiceEndpoint { kind: v[i].kind.clone(), url: v[i].url.clone(), protocols: clone_strings(&v[i].protocols) };
        let ghost before = r@;
        r.push(e);
        proof {
            assert(v@.take(i + 1) == v@.take(i as int).push(v@[i as int]));
            assert(endpoint_views(r@) =~= endpoint_views(before).push(v@[i as int]@));
        }
        i += 1;
        assert(endpoint_views(r@) =~= endpoint_views(v@.take(i as int)));
    }
    assert(v@.take(v@.len() as int) =~= v@);
    r
}

fn clone_links(v: &Vec<ProfileLink>) -> (r: Vec<ProfileLink>)
    ensures
        link_views(r@) == link_views(v@),
{
    let mut r: Vec<ProfileLink> = Vec::new();
    let mut i: usize = 0;
    while i < v.len()
        invariant
            i <= v@.len(),
            link_views(r@) == link_views(v@.take(i as int)),
        decreases v@.len() - i,
    {
        let l = ProfileLink { name: v[i].name.clone(), url: v[i].url.clone(), rel: v[i].rel };
        let ghost before = r@;
        r.push(l);
        proof {
            assert(v@.take(i + 1) == v@.take(i as int).push(v@[i as int]));
            assert(link_views(r@) =~= link_views(before).push(v@[i as int]@));
        }
        i += 1;
        assert(link_views(r@) =~= link_views(v@.take(i as int)));
    }
    assert(v@.take(v@.len() as int) =~= v@);
    r
}

fn clone_hints(v: &Vec<ProfileDelegationHint>) -> (r: Vec<ProfileDelegationHint>)
    ensures
        hint_views(r@) == hint_views(v@),
{
    let mut r: Vec<ProfileDelegationHint> = Vec::new();
    let mut i: usize = 0;
    while i < v.len()
        invariant
            i <= v@.len(),
            hint_views(r@) == hint_views(v@.take(i as int)),
        decreases v@.len() - i,
    {
        let h = ProfileDelegationHint {
            id: clone_opt(&v[i].id),
            principal: v[i].principal.duplicate(),
            relationship: clone_opt(&v[i].relationship),
            scopes: clone_strings(&v[i].scopes),
            credential_url: v[i].credential_url.clone(),
            status_url: clone_opt(&v[i].status_url),
        };
        let ghost before = r@;
        r.push(h);
        proof {
            assert(v@.take(i + 1) == v@.take(i as int).push(v@[i as int]));
            assert(hint_views(r@) =~= hint_views(before).push(v@[i as int]@));
        }
        i += 1;
        assert(hint_views(r@) =~= hint_views(v@.take(i as int)));
    }
    assert(v@.take(v@.len() as int) =~= v@);
    r
}

pub struct ProfileUpdatePayload {
    pub id: AgentId,
    pub name: String,
    pub description: Option<String>,
    pub avatar_url: Option<String>,
    pub provider: Option<String>,
    pub capabilities: Vec<String>,
    pub service_endpoints: Vec<ServiceEndpoint>,
    pub links: Vec<ProfileLink>,
    pub delegations: Vec<ProfileDelegationHint>,
    /// Further members as `(name, JSON text)` pairs.
    pub extra: Vec<(String, String)>,
}

impl ProfileUpdatePayload {
    pub fn new(id: AgentId, name: &str) -> (p: Self)
        ensures
            p.id == id,
            p.name@ == name@,
            p.description is None,
            p.avatar_url is None,
            p.provider is None,
            p.capabilities@.len() == 0,
            p.service_endpoints@.len() == 0,
            p.links@.len() == 0,
            p.delegations@.len() == 0,
            p.extra@.len() == 0,
    {
        ProfileUpdatePayload {
            id,
            name: name.to_owned(),
            description: None,
            avatar_url: None,
            provider: None,
            capabilities: Vec::new(),
            service_endpoints: Vec::new(),
            links: Vec::new(),
            delegations: Vec::new(),
            extra: Vec::new(),
        }
    }
}

pub struct AgentProfile {
    pub id: AgentId,
    pub name: String,
    pub description: Option<String>,
    pub avatar_url: Option<String>,
    pub provider: Option<String>,
    pub capabilities: Vec<String>,
    pub service_endpoints: Vec<ServiceEndpoint>,
    pub links: Vec<ProfileLink>,
    pub delegations: Vec<ProfileDelegationHint>,
    /// Further members as `(name, JSON text)` pairs.
    pub extra: Vec<(String, String)>,
    pub updated_at: i64,
    pub event_id: String,
}

pub struct ProfileBatchReadRequest {
    pub ids: Vec<AgentId>,
}

pub struct ProfileBatchReadResponse {
    pub result: Vec<AgentProfile>,
}

pub struct ProfileEventsResponse {
    pub result: Vec<Envelope<ProfileUpdatePayload>>,
}

pub struct ProfileServiceDiscovery {
    pub protocol: String,
    pub service: String,
    pub endpoints: ProfileServiceEndpoints,
    pub features: Vec<String>,
}

pub struct ProfileServiceEndpoints {
    pub profiles: String,
    pub profile_batch: Option<String>,
}

pub fn profile_update_event(actor: AgentId, created_at: i64, nonce: u64, payload: ProfileUpdatePayload) -> (event:
    Event<ProfileUpdatePayload>)
    ensures
        event.protocol@ == PROTOCOL@,
        event.kind@ == PROFILE_UPDATE@,
        event.actor == actor,
        event.created_at == created_at,
        event.nonce == nonce,
        event.room_id is None,
        event.payload == payload,
        event.extra@.len() == 0,
{
    Event::new(PROTOCOL, PROFILE_UPDATE, actor, created_at, nonce, payload)
}

/// The JSON text of a service endpoint: `type`, `url`, and its protocols
/// when it has some.
pub open spec fn endpoint_json(e: ServiceEndpoint) -> Seq<char> {
    object_json(
        seq![member_json("type"@, json_string_literal(e.kind@)), member_json("url"@, json_string_literal(e.url@))] + (if e.protocols@.len()
            > 0 {
            seq![member_json("protocols"@, strings_json(views(e.protocols@)))]
        } else {
            Seq::empty()
        }),
    )
}

/// The wire name of a link relation.
pub open spec fn link_rel_name(rel: ProfileLinkRel) -> Seq<char> {
    match rel {
        ProfileLinkRel::Homepage => "homepage"@,
        ProfileLinkRel::Documentation => "documentation"@,
        ProfileLinkRel::SourceCode => "source_code"@,
        ProfileLinkRel::Social => "social"@,
        ProfileLinkRel::Browser => "browser"@,
    }
}

/// The JSON text of a profile link.
pub open spec fn link_json(l: ProfileLink) -> Seq<char> {
    object_json(
        seq![
            member_json("name"@, json_string_literal(l.name@)),
            member_json("url"@, json_string_literal(l.url@)),
            member_json("rel"@, json_string_literal(link_rel_name(l.rel))),
        ],
    )
}

/// The JSON text of a delegation hint: its optional members only when set,
/// its scopes only when it has some.
pub open spec fn hint_json(h: ProfileDelegationHint) -> Seq<char> {
    object_json(
        opt_string_member("id"@, h.id) + seq![member_json("principal"@, principal_json(h.principal))]
            + opt_string_member("relationship"@, h.relationship) + (if h.scopes@.len() > 0 {
            seq![member_json("scopes"@, strings_json(views(h.scopes@)))]
        } else {
            Seq::empty()
        }) + seq![member_json("credential_url"@, json_string_literal(h.credential_url@))] + opt_string_member(
            "status_url"@,
            h.status_url,
        ),
    )
}

/// The member `name` holding the array of `items` when there are some.
pub open spec fn array_member(name: Seq<char>, items: Seq<Seq<char>>) -> Seq<Seq<char>> {
    if items.len() > 0 {
        seq![member_json(name, array_json(items))]
    } else {
        Seq::empty()
    }
}

/// The members of a profile update payload's JSON that every update has
/// or may have once: `id` and `name`, then each optional member when set.
pub open spec fn profile_head_members(p: ProfileUpdatePayload) -> Seq<Seq<char>> {
    seq![member_json("id"@, json_string_literal(p.id@)), member_json("name"@, json_string_literal(p.name@))]
        + opt_string_member("description"@, p.description) + opt_string_member("avatar_url"@, p.avatar_url)
        + opt_string_member("provider"@, p.provider)
}

/// The list members of a profile update payload's JSON, each only when its
/// list is not empty.
pub open spec fn profile_list_members(p: ProfileUpdatePayload) -> Seq<Seq<char>> {
    (if p.capabilities@.len() > 0 {
        seq![member_json("capabilities"@, strings_json(views(p.capabilities@)))]
    } else {
        Seq::empty()
    }) + array_member("service_endpoints"@, p.service_endpoints@.map_values(|e: ServiceEndpoint| endpoint_json(e)))
        + array_member("links"@, p.links@.map_values(|l: ProfileLink| link_json(l))) + array_member(
        "delegations"@,
        p.delegations@.map_values(|h: ProfileDelegationHint| hint_json(h)),
    ) + (if p.extra@.len() > 0 {
        seq![member_json("extra"@, pairs_json(pair_views(p.extra@)))]
    } else {
        Seq::empty()
    })
}

/// The members of a profile update payload's JSON.
pub open spec fn profile_payload_members(p: ProfileUpdatePayload) -> Seq<Seq<char>> {
    profile_head_members(p) + profile_list_members(p)
}

/// The JSON text of a profile update payload.
pub open spec fn profile_payload_json(p: ProfileUpdatePayload) -> Seq<char> {
    object_json(profile_payload_members(p))
}

fn endpoint_json_text(e: &ServiceEndpoint) -> (text: String)
    ensures
        text@ == endpoint_json(*e),
{
    let mut members: Vec<String> = Vec::new();
    let t = json_quote(e.kind.as_str());
    push_member(&mut members, "type", t.as_str());
    let t = json_quote(e.url.as_str());
    push_member(&mut members, "url", t.as_str());
    if e.protocols.len() > 0 {
        let t = strings_text(&e.protocols);
        push_member(&mut members, "protocols", t.as_str());
    }
    assert(views(members@) =~= seq![member_json("type"@, json_string_literal(e.kind@)), member_json("url"@, json_string_literal(e.url@))] + (if e.protocols@.len()
        > 0 {
        seq![member_json("protocols"@, strings_json(views(e.protocols@)))]
    } else {
        Seq::empty()
    }));
    object_text(&members)
}

fn link_json_text(l: &ProfileLink) -> (text: String)
    ensures
        text@ == link_json(*l),
{
    let mut members: Vec<String> = Vec::new();
    let t = json_quote(l.name.as_str());
    push_member(&mut members, "name", t.as_str());
    let t = json_quote(l.url.as_str());
    push_member(&mut members, "url", t.as_str());
    let rel = match l.rel {
        ProfileLinkRel::Homepage => "homepage",
        ProfileLinkRel::Documentation => "documentation",
        ProfileLinkRel::SourceCode => "source_code",
        ProfileLinkRel::Social => "social",
        ProfileLinkRel::Browser => "browser",
    };
    let t = json_quote(rel);
    push_member(&mut members, "rel", t.as_str());
    assert(views(members@) =~= seq![
        member_json("name"@, json_string_literal(l.name@)),
        member_json("url"@, json_string_literal(l.url@)),
        member_json("rel"@, json_string_literal(link_rel_name(l.rel))),
    ]);
    object_text(&members)
}

fn hint_json_text(h: &ProfileDelegationHint) -> (text: String)
    ensures
        text@ == hint_json(*h),
{
    let mut members: Vec<String> = Vec::new();
    push_opt_string_member(&mut members, "id", &h.id);
    let t = principal_json_text(&h.principal);
    push_member(&mut members, "principal", t.as_str());
    push_opt_string_member(&mut members, "relationship", &h.relationship);
    if h.scopes.len() > 0 {
        let t = strings_text(&h.scopes);
        push_member(&mut members, "scopes", t.as_str());
    }
    let t = json_quote(h.credential_url.as_str());
    push_member(&mut members, "credential_url", t.as_str());
    push_opt_string_member(&mut members, "status_url", &h.status_url);
    assert(views(members@) =~= opt_string_member("id"@, h.id) + seq![member_json("principal"@, principal_json(h.principal))]
        + opt_string_member("relationship"@, h.relationship) + (if h.scopes@.len() > 0 {
        seq![member_json("scopes"@, strings_json(views(h.scopes@)))]
    } else {
        Seq::empty()
    }) + seq![member_json("credential_url"@, json_string_literal(h.credential_url@))] + opt_string_member(
        "status_url"@,
        h.status_url,
    ));
    object_text(&members)
}

fn endpoints_text(v: &Vec<ServiceEndpoint>) -> (text: String)
    ensures
        text@ == array_json(v@.map_values(|e: ServiceEndpoint| endpoint_json(e))),
{
    let mut items: Vec<String> = Vec::new();
    let mut i: usize = 0;
    while i < v.len()
        invariant
            i <= v@.len(),
            views(items@) == v@.take(i as int).map_values(|e: ServiceEndpoint| endpoint_json(e)),
        decreases v@.len() - i,
    {
        let t = endpoint_json_text(&v[i]);
        let ghost before = items@;
        items.push(t);
        assert(v@.take(i + 1).map_values(|e: ServiceEndpoint| endpoint_json(e)) =~= v@.take(i as int).map_values(
            |e: ServiceEndpoint| endpoint_json(e),
        ).push(endpoint_json(v@[i as int])));
        assert(views(items@) =~= views(before).push(items@[i as int]@));
        i += 1;
    }
    assert(v@.take(v@.len() as int) =~= v@);
    array_text(&items)
}

fn links_text(v: &Vec<ProfileLink>) -> (text: String)
    ensures
        text@ == array_json(v@.map_values(|l: ProfileLink| link_json(l))),
{
    let mut items: Vec<String> = Vec::new();
    let mut i: usize = 0;
    while i < v.len()
        invariant
            i <= v@.len(),
            views(items@) == v@.take(i as int).map_values(|l: ProfileLink| link_json(l)),
        decreases v@.len() - i,
    {
        let t = link_json_text(&v[i]);
        let ghost before = items@;
        items.push(t);
        assert(v@.take(i + 1).map_values(|l: ProfileLink| link_json(l)) =~= v@.take(i as int).map_values(
            |l: ProfileLink| link_json(l),
        ).push(link_json(v@[i as int])));
        assert(views(items@) =~= views(before).push(items@[i as int]@));
        i += 1;
    }
    assert(v@.take(v@.len() as int) =~= v@);
    array_text(&items)
}

fn hints_text(v: &Vec<ProfileDelegationHint>) -> (text: String)
    ensures
        text@ == array_json(v@.map_values(|h: ProfileDelegationHint| hint_json(h))),
{
    let mut items: Vec<String> = Vec::new();
    let mut i: usize = 0;
    while i < v.len()
        invariant
            i <= v@.len(),
            views(items@) == v@.take(i as int).map_values(|h: ProfileDelegationHint| hint_json(h)),
        decreases v@.len() - i,
    {
        let t = hint_json_text(&v[i]);
        let ghost before = items@;
        items.push(t);
        assert(v@.take(i + 1).map_values(|h: ProfileDelegationHint| hint_json(h)) =~= v@.take(i as int).map_values(
            |h: ProfileDelegationHint| hint_json(h),
        ).push(hint_json(v@[i as int])));
        assert(views(items@) =~= views(before).push(items@[i as int]@));
        i += 1;
    }
    assert(v@.take(v@.len() as int) =~= v@);
    array_text(&items)
}

fn push_head_members(members: &mut Vec<String>, p: &ProfileUpdatePayload)
    ensures
        views(final(members)@) == views(old(members)@) + profile_head_members(*p),
{
    let t = json_quote(p.id.as_str());
    push_member(members, "id", t.as_str());
    let t = json_quote(p.name.as_str());
    push_member(members, "name", t.as_str());
    push_opt_string_member(members, "description", &p.description);
    push_opt_string_member(members, "avatar_url", &p.avatar_url);
    push_opt_string_member(members, "provider", &p.provider);
    assert(views(members@) =~= views(old(members)@) + profile_head_members(*p));
}

fn push_list_members(members: &mut Vec<String>, p: &ProfileUpdatePayload)
    ensures
        views(final(members)@) == views(old(members)@) + profile_list_members(*p),
{
    if p.capabilities.len() > 0 {
        let t = strings_text(&p.capabilities);
        push_member(members, "capabilities", t.as_str());
    }
    if p.service_endpoints.len() > 0 {
        let t = endpoints_text(&p.service_endpoints);
        push_member(members, "service_endpoints", t.as_str());
    }
    if p.links.len() > 0 {
        let t = links_text(&p.links);
        push_member(members, "links", t.as_str());
    }
    if p.delegations.len() > 0 {
        let t = hints_text(&p.delegations);
        push_member(members, "delegations", t.as_str());
    }
    if p.extra.len() > 0 {
        let t = pairs_text(&p.extra);
        push_member(members, "extra", t.as_str());
    }
    assert(views(members@) =~= views(old(members)@) + profile_list_members(*p));
}

/// Writes the JSON text of a profile update payload, which its event's hash
/// and signature cover.
pub fn profile_payload_json_text(p: &ProfileUpdatePayload) -> (text: String)
    ensures
        text@ == profile_payload_json(*p),
{
    let mut members: Vec<String> = Vec::new();
    push_head_members(&mut members, p);
    push_list_members(&mut members, p);
    assert(views(members@) =~= profile_payload_members(*p));
    object_text(&members)
}

/// The first failing check of a profile update.
pub open spec fn profile_update_failure(envelope: Envelope<ProfileUpdatePayload>) -> Option<
    ErrorView,
> {
    match crate::identity::envelope_failure(envelope, profile_payload_json(envelope.event.payload)) {
        Some(e) => Some(e),
        None => if envelope.event.protocol@ != PROTOCOL@ {
            Some(ErrorView::InvalidEventProtocol { expected: PROTOCOL@, actual: envelope.event.protocol@ })
        } else if envelope.event.kind@ != PROFILE_UPDATE@ {
            Some(ErrorView::InvalidEventType { expected: PROFILE_UPDATE@, actual: envelope.event.kind@ })
        } else if envelope.event.actor@ != envelope.event.payload.id@ {
            Some(ErrorView::InvalidActor("profile update actor must match payload.id"@))
        } else {
            None
        },
    }
}

/// Verifies a profile update: hash and signature, protocol, type, and that
/// the signer is the agent the payload describes.
pub fn validate_profile_update(envelope: &Envelope<ProfileUpdatePayload>) -> (res: Result<()>)
    ensures
        fails_with(res, profile_update_failure(*envelope)),
{
    let payload_json = profile_payload_json_text(&envelope.event.payload);
    crate::identity::verify_envelope(envelope, payload_json.as_str())?;
    if !str_eq(envelope.event.protocol.as_str(), PROTOCOL) {
        return Err(SdkError::InvalidEventProtocol {
            expected: PROTOCOL.to_owned(),
            actual: envelope.event.protocol.clone(),
        });
    }
    if !str_eq(envelope.event.kind.as_str(), PROFILE_UPDATE) {
        return Err(SdkError::InvalidEventType {
            expected: PROFILE_UPDATE.to_owned(),
            actual: envelope.event.kind.clone(),
        });
    }
    if !envelope.event.actor.same_as(&envelope.event.payload.id) {
        return Err(SdkError::InvalidActor("profile update actor must match payload.id".to_owned()));
    }
    Ok(())
}

/// The profile an update gives: the payload's fields, the event time as
/// `updated_at` and the event hash as `event_id`.
pub open spec fn profile_of(profile: AgentProfile, envelope: Envelope<ProfileUpdatePayload>) -> bool {
    let p = envelope.event.payload;
    &&& profile.id@ == p.id@
    &&& profile.name@ == p.name@
    &&& opt_view(profile.description) == opt_view(p.description)
    &&& opt_view(profile.avatar_url) == opt_view(p.avatar_url)
    &&& opt_view(profile.provider) == opt_view(p.provider)
    &&& views(profile.capabilities@) == views(p.capabilities@)
    &&& endpoint_views(profile.service_endpoints@) == endpoint_views(p.service_endpoints@)
    &&& link_views(profile.links@) == link_views(p.links@)
    &&& hint_views(profile.delegations@) == hint_views(p.delegations@)
    &&& pair_views(profile.extra@) == pair_views(p.extra@)
    &&& profile.updated_at == envelope.event.created_at
    &&& profile.event_id@ == envelope.hash@
}

pub fn materialize_profile(envelope: &Envelope<ProfileUpdatePayload>) -> (res: Result<AgentProfile>)
    ensures
        fails_with(res, profile_update_failure(*envelope)),
        res matches Ok(profile) ==> profile_of(profile, *envelope),
{
    validate_profile_update(envelope)?;
    let payload = &envelope.event.payload;
    Ok(AgentProfile {
        id: payload.id.clone(),
        name: payload.name.clone(),
        description: clone_opt(&payload.description),
        avatar_url: clone_opt(&payload.avatar_url),
        provider: clone_opt(&payload.provider),
        capabilities: clone_strings(&payload.capabilities),
        service_endpoints: clone_endpoints(&payload.service_endpoints),
        links: clone_links(&payload.links),
        delegations: clone_hints(&payload.delegations),
        extra: clone_pairs(&payload.extra),
        updated_at: envelope.event.created_at,
        event_id: envelope.hash.clone(),
    })
}

/// The index of the latest update: the last one with the greatest nonce.
pub open spec fn is_latest(envelopes: Seq<Envelope<ProfileUpdatePayload>>, i: int) -> bool {
    &&& 0 <= i < envelopes.len()
    &&& forall|j: int| 0 <= j < envelopes.len() ==> #[trigger] envelopes[j].event.nonce <= envelopes[i].event.nonce
    &&& forall|j: int| i < j < envelopes.len() ==> #[trigger] envelopes[j].event.nonce < envelopes[i].event.nonce
}

/// Selects the latest profile state from accepted update envelopes. Nonces
/// are strictly monotonic per Agent ID, so the latest profile is the accepted
/// `profile.update` with the greatest `nonce`; of equal nonces the last wins.
pub fn latest_profile_update(envelopes: &[Envelope<ProfileUpdatePayload>]) -> (r: Option<
    &Envelope<ProfileUpdatePayload>,
>)
    ensures
        match r {
            None => envelopes@.len() == 0,
            Some(e) => exists|i: int| is_latest(envelopes@, i) && *e == envelopes@[i],
        },
{
    if envelopes.len() == 0 {
        return None;
    }
    let mut best: usize = 0;
    let mut i: usize = 1;
    while i < envelopes.len()
        invariant
            0 <= best < i <= envelopes@.len(),
            forall|j: int| 0 <= j < i ==> #[trigger] envelopes@[j].event.nonce <= envelopes@[best as int].event.nonce,
            forall|j: int| best < j < i ==> #[trigger] envelopes@[j].event.nonce < envelopes@[best as int].event.nonce,
        decreases envelopes@.len() - i,
    {
        if envelopes[i].event.nonce >= envelopes[best].event.nonce {
            best = i;
        }
        i += 1;
    }
    assert(is_latest(envelopes@, best as int));
    Some(&envelopes[best])
}

} // verus!
