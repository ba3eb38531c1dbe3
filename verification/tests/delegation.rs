use agent_protocols::delegation::{
    delegation_grant_event, delegation_revoke_event, is_principal_alias, materialize_delegation_credential,
    validate_controller, validate_controller_enumeration, validate_delegation_acceptance, validate_delegation_envelope,
    validate_delegation_event_authority, validate_delegation_grant_payload, validate_delegation_id,
    validate_delegation_query_request, validate_delegation_revoke_payload, validate_delegation_use,
    validate_historical_delegation, validate_principal_document, validate_principal_resolution, Controller,
    DelegationAcceptance, DelegationAuthority, DelegationGrantPayload, DelegationPayload, DelegationPolicy,
    DelegationQueryRequest, DelegationRevokePayload, DelegationStatus, PrincipalDescriptor, PrincipalDocument,
    DELEGATION_GRANT, DELEGATION_REVOKE, PROTOCOL,
};
use agent_protocols::error::SdkError;
use agent_protocols::identity::{AgentSigner, Envelope, Event};
use serde_json::Value;

const ID: &str = "https://example.com/p";
const ORIGIN: &str = "https://dmsg.net";

fn strings(values: &[String]) -> Value {
    Value::Array(values.iter().map(|v| Value::String(v.clone())).collect())
}

fn grant_json(payload: &DelegationGrantPayload) -> String {
    let mut principal = serde_json::Map::new();
    principal.insert("id".to_owned(), Value::String(payload.principal.id.clone()));
    if let Some(kind) = &payload.principal.kind {
        principal.insert("type".to_owned(), Value::String(kind.clone()));
    }
    if let Some(name) = &payload.principal.name {
        principal.insert("name".to_owned(), Value::String(name.clone()));
    }
    let mut map = serde_json::Map::new();
    map.insert("id".to_owned(), Value::String(payload.id.clone()));
    map.insert("principal".to_owned(), Value::Object(principal));
    map.insert("subject".to_owned(), Value::String(payload.subject.as_str().to_owned()));
    if let Some(relationship) = &payload.relationship {
        map.insert("relationship".to_owned(), Value::String(relationship.clone()));
    }
    map.insert("scopes".to_owned(), strings(&payload.scopes));
    map.insert("audiences".to_owned(), strings(&payload.audiences));
    if let Some(t) = payload.not_before {
        map.insert("not_before".to_owned(), Value::from(t));
    }
    if let Some(t) = payload.expires_at {
        map.insert("expires_at".to_owned(), Value::from(t));
    }
    Value::Object(map).to_string()
}

fn revoke_json(payload: &DelegationRevokePayload) -> String {
    let mut map = serde_json::Map::new();
    map.insert("id".to_owned(), Value::String(payload.id.clone()));
    map.insert("principal_id".to_owned(), Value::String(payload.principal_id.clone()));
    if let Some(reason) = &payload.reason {
        map.insert("reason".to_owned(), Value::String(reason.clone()));
    }
    Value::Object(map).to_string()
}

fn as_delegation(envelope: Envelope<DelegationGrantPayload>) -> Envelope<DelegationPayload> {
    let event = envelope.event;
    Envelope {
        hash: envelope.hash,
        signature: envelope.signature,
        event: Event {
            protocol: event.protocol,
            kind: event.kind,
            actor: event.actor,
            created_at: event.created_at,
            nonce: event.nonce,
            room_id: event.room_id,
            payload: DelegationPayload::Grant(event.payload),
            extra: event.extra,
        },
    }
}

fn signer() -> AgentSigner {
    AgentSigner::from_seed([61; 32])
}

fn root() -> AgentSigner {
    AgentSigner::from_seed([62; 32])
}

fn controller(agent: &AgentSigner, source: &str, delegation: Option<DelegationAuthority>) -> Controller {
    Controller {
        id: agent.agent_id(),
        source: source.to_owned(),
        valid_from: 100,
        name: None,
        delegation,
        retired_at: None,
        invalid_from: None,
    }
}

fn empty_document(id: &str, controllers: Vec<Controller>) -> PrincipalDocument {
    PrincipalDocument {
        id: id.to_owned(),
        kind: None,
        name: None,
        description: None,
        avatar_url: None,
        aliases: Vec::new(),
        links: Vec::new(),
        protocol: PROTOCOL.to_owned(),
        controllers,
        retired_controllers: Vec::new(),
        delegation_query_url: None,
        updated_at: 2000,
        extra: Vec::new(),
    }
}

fn document() -> PrincipalDocument {
    empty_document(
        ID,
        vec![
            controller(
                &signer(),
                ORIGIN,
                Some(DelegationAuthority::Restricted(DelegationPolicy {
                    scopes: vec!["draft".to_owned()],
                    audiences: vec![ORIGIN.to_owned()],
                })),
            ),
            controller(&root(), "local", Some(DelegationAuthority::Unrestricted("*".to_owned()))),
        ],
    )
}

fn grant(actor: &AgentSigner, scope: &str, audience: &str) -> (Envelope<DelegationPayload>, String) {
    let mut payload = DelegationGrantPayload::new(
        "del",
        PrincipalDescriptor::new(ID),
        root().agent_id(),
        vec![scope.to_owned()],
        vec![audience.to_owned()],
    );
    payload.expires_at = Some(1000);
    let json = grant_json(&payload);
    let event = Event::new(PROTOCOL, DELEGATION_GRANT, actor.agent_id(), 200, 1, DelegationPayload::Grant(payload));
    (actor.sign_event(event, &json).unwrap(), json)
}

fn revoke() -> (Envelope<DelegationPayload>, String) {
    let payload = DelegationRevokePayload { id: "del".to_owned(), principal_id: ID.to_owned(), reason: None };
    let json = revoke_json(&payload);
    let event = Event::new(PROTOCOL, DELEGATION_REVOKE, root().agent_id(), 400, 2, DelegationPayload::Revoke(payload));
    (root().sign_event(event, &json).unwrap(), json)
}

#[test]
fn validates_and_materializes_grant() {
    let controller = AgentSigner::from_seed([31; 32]);
    let subject = AgentSigner::from_seed([32; 32]);
    let mut payload = DelegationGrantPayload::new(
        "del_01J8ZM7A3G2T9B4Q6X8R0N1P2Q",
        PrincipalDescriptor {
            id: "https://api.al.ink/d9c6a99cne5g00a6scn0".to_owned(),
            kind: Some("person".to_owned()),
            name: Some("Yan".to_owned()),
        },
        subject.agent_id(),
        vec!["inbox.screen".to_owned(), "meeting.propose".to_owned()],
        vec!["https://dmsg.net".to_owned()],
    );
    payload.relationship = Some("primary_delegate".to_owned());
    payload.not_before = Some(1_779_753_600_000);
    payload.expires_at = Some(1_790_000_000_000);
    let json = grant_json(&payload);
    let envelope = controller
        .sign_event(delegation_grant_event(controller.agent_id(), 1_779_753_600_000, 1, payload), &json)
        .unwrap();
    let hash = envelope.hash.clone();
    let envelope_for_validation = as_delegation(envelope);

    validate_delegation_envelope(&envelope_for_validation).unwrap();
    let credential =
        materialize_delegation_credential(&envelope_for_validation, DelegationStatus::Active, 1_779_753_600_000, None)
            .unwrap();

    assert_eq!(credential.protocol, PROTOCOL);
    assert_eq!(credential.controller, controller.agent_id());
    assert_eq!(credential.subject, subject.agent_id());
    assert_eq!(credential.event_id, hash);
}

#[test]
fn validates_revoke_and_rejects_invalid_grants() {
    let controller = AgentSigner::from_seed([33; 32]);
    let payload = DelegationRevokePayload {
        id: "del_01J8ZM7A3G2T9B4Q6X8R0N1P2Q".to_owned(),
        principal_id: "https://api.al.ink/d9c6a99cne5g00a6scn0".to_owned(),
        reason: Some("rotated_primary_agent".to_owned()),
    };
    let json = revoke_json(&payload);
    let envelope = controller
        .sign_event(delegation_revoke_event(controller.agent_id(), 1_779_753_700_000, 2, payload), &json)
        .unwrap();
    let event = envelope.event;
    let envelope = Envelope {
        hash: envelope.hash,
        signature: envelope.signature,
        event: Event {
            protocol: event.protocol,
            kind: event.kind,
            actor: event.actor,
            created_at: event.created_at,
            nonce: event.nonce,
            room_id: event.room_id,
            payload: DelegationPayload::Revoke(event.payload),
            extra: event.extra,
        },
    };
    validate_delegation_envelope(&envelope).unwrap();

    let invalid = DelegationGrantPayload::new(
        "del",
        PrincipalDescriptor::new("http://example.com"),
        controller.agent_id(),
        Vec::new(),
        vec!["https://dmsg.net".to_owned()],
    );
    assert!(validate_delegation_grant_payload(&invalid, None).is_err());
}

fn base_grant(controller: &AgentSigner) -> DelegationGrantPayload {
    DelegationGrantPayload::new(
        "del_1",
        PrincipalDescriptor::new("https://api.al.ink/d9c6a99cne5g00a6scn0"),
        controller.agent_id(),
        vec!["inbox.screen".to_owned()],
        vec!["https://dmsg.net".to_owned()],
    )
}

#[test]
fn grant_expiry_checked_against_not_before_and_created_at() {
    let controller = AgentSigner::from_seed([36; 32]);

    let mut same_as_not_before = base_grant(&controller);
    same_as_not_before.not_before = Some(2000);
    same_as_not_before.expires_at = Some(2000);
    assert!(validate_delegation_grant_payload(&same_as_not_before, Some(1000)).is_err());

    let mut before_created_at = base_grant(&controller);
    before_created_at.not_before = Some(500);
    before_created_at.expires_at = Some(800);
    assert!(validate_delegation_grant_payload(&before_created_at, Some(1000)).is_err());

    let mut valid = base_grant(&controller);
    valid.not_before = Some(500);
    valid.expires_at = Some(1500);
    validate_delegation_grant_payload(&valid, Some(1000)).unwrap();
}

#[test]
fn public_delegation_queries_carry_both_subject_and_principal() {
    let principal_id = "https://api.al.ink/d9c6a99cne5g00a6scn0".to_owned();
    let subject = || AgentSigner::from_seed([37; 32]).agent_id();
    let public = DelegationQueryRequest {
        subject: Some(subject()),
        principal_id: Some(principal_id.clone()),
        limit: Some(20),
        ..DelegationQueryRequest::default()
    };
    validate_delegation_query_request(&public, false).unwrap();

    for one_sided in [
        DelegationQueryRequest { subject: Some(subject()), ..DelegationQueryRequest::default() },
        DelegationQueryRequest { principal_id: Some(principal_id.clone()), ..DelegationQueryRequest::default() },
    ] {
        assert!(validate_delegation_query_request(&one_sided, false).is_err());
        validate_delegation_query_request(&one_sided, true).unwrap();
    }

    assert!(validate_delegation_query_request(&DelegationQueryRequest::default(), true).is_err());
    assert!(validate_delegation_query_request(&DelegationQueryRequest { limit: Some(0), ..public }, false).is_err());
}

#[test]
fn principal_documents_bind_controllers_only_at_their_own_id() {
    let agent = AgentSigner::from_seed([38; 32]);
    let mut document = empty_document(
        "https://api.al.ink/d9c6a99cne5g00a6scn0",
        vec![Controller {
            id: agent.agent_id(),
            source: "local".to_owned(),
            valid_from: 0,
            name: None,
            delegation: None,
            retired_at: None,
            invalid_from: None,
        }],
    );
    document.aliases = vec!["https://al.ink/yan".to_owned()];
    document.updated_at = 1000;

    validate_principal_resolution(&document, "https://api.al.ink/d9c6a99cne5g00a6scn0").unwrap();
    assert!(validate_principal_resolution(&document, "https://impostor.example.com/yan").is_err());

    assert!(is_principal_alias(&document, "https://al.ink/yan"));
    assert!(!is_principal_alias(&document, "https://impostor.example.com/yan"));
}

#[test]
fn validates_principal_document() {
    let agent = AgentSigner::from_seed([34; 32]);
    let mut document = empty_document(
        "https://profiles.example.com/org/acme",
        vec![Controller {
            id: agent.agent_id(),
            source: "local".to_owned(),
            valid_from: 0,
            name: None,
            delegation: None,
            retired_at: None,
            invalid_from: None,
        }],
    );
    document.aliases = vec!["https://profiles.example.com/acme".to_owned()];
    document.delegation_query_url = Some("https://profiles.example.com/v1/delegations/query".to_owned());
    document.updated_at = 1000;
    validate_principal_document(&document).unwrap();

    let mut invalid = document;
    invalid.protocol = "old-draft".to_owned();
    assert!(validate_principal_document(&invalid).is_err());
}

#[test]
fn rejects_malformed_https_like_urls() {
    let signer = AgentSigner::from_seed([35; 32]);
    for principal_id in ["https://", "https://[::1", "http://example.com"] {
        let payload = DelegationGrantPayload::new(
            "del",
            PrincipalDescriptor::new(principal_id),
            signer.agent_id(),
            vec!["scope".to_owned()],
            vec!["https://dmsg.net".to_owned()],
        );
        assert!(validate_delegation_grant_payload(&payload, None).is_err());
    }
}

#[test]
fn authority_ownership_and_materialization() {
    let doc = document();
    let (envelope, _) = grant(&signer(), "draft", ORIGIN);
    validate_delegation_acceptance(&envelope, &doc, ID, 250, None).unwrap();
    let credential =
        materialize_delegation_credential(&envelope, DelegationStatus::Active, 250, None).unwrap();
    assert_eq!(credential.accepted_at, 250);
    assert_eq!(credential.owner_controller, signer().agent_id());
    validate_delegation_use(&credential, ORIGIN, 300).unwrap();
    assert!(validate_delegation_use(&credential, "https://tokenlist.ing", 300).is_err());
    assert!(validate_delegation_use(&credential, ORIGIN, 1000).is_err());
    for (bad, _) in [grant(&signer(), "admin", ORIGIN), grant(&signer(), "draft", "https://tokenlist.ing")] {
        assert!(validate_delegation_acceptance(&bad, &doc, ID, 250, None).is_err());
    }
    assert!(validate_delegation_acceptance(&envelope, &doc, "https://impostor.example", 250, None).is_err());
    assert!(validate_delegation_acceptance(&envelope, &doc, ID, 1000, None).is_err());
    let mut only = document();
    only.controllers[0].delegation = None;
    validate_delegation_envelope(&envelope).unwrap();
    assert!(validate_delegation_acceptance(&envelope, &only, ID, 250, None).is_err());
    let (root_grant, _) = grant(&root(), "draft", ORIGIN);
    let other =
        materialize_delegation_credential(&root_grant, DelegationStatus::Active, 250, None).unwrap();
    assert!(validate_delegation_acceptance(&envelope, &doc, ID, 300, Some(&other)).is_err());
    assert!(validate_controller_enumeration(&doc, &signer().agent_id(), 300, &root().agent_id()).is_err());
    validate_controller_enumeration(&doc, &root().agent_id(), 300, &signer().agent_id()).unwrap();
    let (revoke, _) = revoke();
    validate_delegation_acceptance(&revoke, &doc, ID, 450, Some(&credential)).unwrap();
    let revoked =
        materialize_delegation_credential(&revoke, DelegationStatus::Active, 450, Some(&credential))
            .unwrap();
    assert_eq!(revoked.status, DelegationStatus::Revoked);
    assert_eq!(revoked.controller, root().agent_id());
    assert_eq!(revoked.owner_controller, signer().agent_id());
    assert_eq!(revoked.grant_event_id, envelope.hash);
    assert_eq!(revoked.audiences, credential.audiences);
    assert!(validate_delegation_acceptance(&revoke, &doc, ID, 450, None).is_err());
    let (replacement, _) = grant(&root(), "draft", ORIGIN);
    validate_delegation_acceptance(&replacement, &doc, ID, 500, Some(&revoked)).unwrap();
    assert_eq!(
        materialize_delegation_credential(&replacement, DelegationStatus::Active, 500, Some(&revoked))
            .unwrap()
            .owner_controller,
        signer().agent_id()
    );
}

#[test]
fn retired_history_requires_hash_bound_acceptance() {
    let mut doc = document();
    let (envelope, _) = grant(&signer(), "draft", ORIGIN);
    let mut retired = doc.controllers.remove(0);
    retired.retired_at = Some(500);
    doc.retired_controllers.push(retired);
    assert!(validate_delegation_acceptance(&envelope, &doc, ID, 600, None).is_err());
    let mut acceptance = DelegationAcceptance { event_id: envelope.hash.clone(), accepted_at: 250 };
    validate_historical_delegation(&envelope, &acceptance, &doc, ID, None).unwrap();
    acceptance.event_id = "different".to_owned();
    assert!(validate_historical_delegation(&envelope, &acceptance, &doc, ID, None).is_err());
    acceptance.event_id = envelope.hash.clone();
    acceptance.accepted_at = 500;
    assert!(validate_historical_delegation(&envelope, &acceptance, &doc, ID, None).is_err());
    acceptance.accepted_at = 250;
    doc.retired_controllers[0].invalid_from = Some(300);
    validate_historical_delegation(&envelope, &acceptance, &doc, ID, None).unwrap();
    doc.retired_controllers[0].invalid_from = Some(250);
    assert!(validate_historical_delegation(&envelope, &acceptance, &doc, ID, None).is_err());
}

#[test]
fn accepted_events_also_pass_the_historical_check() {
    let doc = document();
    let (envelope, _) = grant(&signer(), "draft", ORIGIN);
    validate_delegation_acceptance(&envelope, &doc, ID, 250, None).unwrap();
    let acceptance = DelegationAcceptance { event_id: envelope.hash.clone(), accepted_at: 250 };
    validate_historical_delegation(&envelope, &acceptance, &doc, ID, None).unwrap();
}

#[test]
fn revoked_credentials_are_unusable_everywhere() {
    let doc = document();
    let (envelope, _) = grant(&signer(), "draft", ORIGIN);
    let credential =
        materialize_delegation_credential(&envelope, DelegationStatus::Active, 250, None).unwrap();
    let (revoke, _) = revoke();
    validate_delegation_acceptance(&revoke, &doc, ID, 450, Some(&credential)).unwrap();
    let revoked =
        materialize_delegation_credential(&revoke, DelegationStatus::Active, 450, Some(&credential))
            .unwrap();
    for now in [250, 300, 999] {
        assert!(validate_delegation_use(&revoked, ORIGIN, now).is_err());
    }
    assert!(materialize_delegation_credential(&revoke, DelegationStatus::Active, 200, Some(&credential))
        .is_err());
}

#[test]
fn authority_checks_before_signing() {
    let doc = document();
    let payload = DelegationGrantPayload::new(
        "del",
        PrincipalDescriptor::new(ID),
        root().agent_id(),
        vec!["draft".to_owned()],
        vec![ORIGIN.to_owned()],
    );
    let event = Event::new(PROTOCOL, DELEGATION_GRANT, signer().agent_id(), 200, 1, DelegationPayload::Grant(payload));
    validate_delegation_event_authority(&event, &doc, 250, None).unwrap();
    assert!(validate_delegation_event_authority(&event, &doc, 50, None).is_err());
}

#[test]
fn identifiers_and_controllers() {
    validate_delegation_id("del_1").unwrap();
    assert!(matches!(validate_delegation_id(".."), Err(SdkError::InvalidPayload(_))));
    assert!(validate_delegation_id("   ").is_err());
    validate_delegation_revoke_payload(&DelegationRevokePayload {
        id: "del".to_owned(),
        principal_id: ID.to_owned(),
        reason: None,
    })
    .unwrap();
    let mut retired = controller(&signer(), "local", None);
    assert!(validate_controller(&retired, true).is_err());
    retired.retired_at = Some(150);
    validate_controller(&retired, true).unwrap();
    assert!(validate_controller(&retired, false).is_err());
    retired.invalid_from = Some(160);
    assert!(validate_controller(&retired, true).is_err());
}

fn payload_message<T: std::fmt::Debug>(result: Result<T, SdkError>) -> String {
    match result {
        Err(SdkError::InvalidPayload(message)) => message,
        other => panic!("expected an invalid payload error, got {other:?}"),
    }
}

#[test]
fn validation_errors_name_the_failing_field() {
    let controller_key = AgentSigner::from_seed([36; 32]);
    let mut grant = base_grant(&controller_key);
    grant.scopes = Vec::new();
    assert_eq!(payload_message(validate_delegation_grant_payload(&grant, None)), "scopes must be a non-empty array");
    let mut grant = base_grant(&controller_key);
    grant.audiences = vec!["https://dmsg.net".to_owned(), "https://dmsg.net".to_owned()];
    assert_eq!(payload_message(validate_delegation_grant_payload(&grant, None)), "audiences has wildcard or duplicates");
    let mut grant = base_grant(&controller_key);
    grant.scopes = vec!["a".to_owned(), " ".to_owned()];
    assert_eq!(payload_message(validate_delegation_grant_payload(&grant, None)), "scopes must not be empty");
    let mut grant = base_grant(&controller_key);
    grant.audiences = vec!["https://dmsg.net/path".to_owned()];
    assert_eq!(
        payload_message(validate_delegation_grant_payload(&grant, None)),
        "origin must be a serialized HTTPS origin"
    );
    let mut grant = base_grant(&controller_key);
    grant.audiences = vec!["http://dmsg.net".to_owned()];
    assert_eq!(payload_message(validate_delegation_grant_payload(&grant, None)), "origin must be an HTTPS URL");
    let mut grant = base_grant(&controller_key);
    grant.not_before = Some(-1);
    assert_eq!(
        payload_message(validate_delegation_grant_payload(&grant, None)),
        "not_before must be a non-negative safe integer"
    );
    let grant = base_grant(&controller_key);
    assert_eq!(
        payload_message(validate_delegation_grant_payload(&grant, Some(-5))),
        "created_at must be a non-negative safe integer"
    );
    assert_eq!(payload_message(validate_delegation_id(" ")), "delegation id must not be empty");
    assert_eq!(payload_message(validate_delegation_id(".")), "delegation id cannot be a dot segment");
    let revoke = DelegationRevokePayload { id: "del".to_owned(), principal_id: "ftp://x".to_owned(), reason: None };
    assert_eq!(payload_message(validate_delegation_revoke_payload(&revoke)), "principal_id must be an HTTPS URL");

    let mut named = controller(&signer(), "local", None);
    named.name = Some("  ".to_owned());
    assert_eq!(payload_message(validate_controller(&named, false)), "name must not be empty");
    let retired = controller(&signer(), "local", None);
    assert_eq!(payload_message(validate_controller(&retired, true)), "retired_at required");
    let mut late = controller(&signer(), "local", None);
    late.retired_at = Some(50);
    assert_eq!(payload_message(validate_controller(&late, true)), "retired_at precedes valid_from");

    let mut doc = document();
    doc.aliases = vec!["https://alias.example".to_owned(), "mailto:x".to_owned()];
    assert_eq!(payload_message(validate_principal_document(&doc)), "alias must be an HTTPS URL");
    let mut doc = document();
    doc.updated_at = -1;
    assert_eq!(payload_message(validate_principal_document(&doc)), "updated_at must be a non-negative safe integer");
    assert_eq!(
        payload_message(validate_principal_resolution(&document(), "https://mirror.example/p")),
        "principal document id https://example.com/p was served at https://mirror.example/p"
    );
}

#[test]
fn authority_reports_mismatched_event_types() {
    let (envelope, _) = grant(&signer(), "draft", ORIGIN);
    let mut event = envelope.event;
    event.kind = DELEGATION_REVOKE.to_owned();
    assert_eq!(
        payload_message(validate_delegation_event_authority(&event, &document(), 1500, None)),
        "event type does not match payload"
    );
    event.kind = "delegation.other".to_owned();
    assert_eq!(
        payload_message(validate_delegation_event_authority(&event, &document(), 1500, None)),
        "event type does not match payload"
    );
}

#[test]
fn controller_keys_are_not_reused_within_a_principal() {
    let mut doc = document();
    let mut retired = controller(&signer(), "local", None);
    retired.retired_at = Some(150);
    doc.retired_controllers.push(retired);
    assert_eq!(payload_message(validate_principal_document(&doc)), "duplicate controller key");
    let mut doc = document();
    doc.controllers[1].valid_from = 5000;
    assert_eq!(payload_message(validate_principal_document(&doc)), "controller timestamp exceeds document update");
}

#[test]
fn a_typed_payload_other_than_the_signed_one_fails_the_hash() {
    let (mut envelope, _) = grant(&signer(), "draft", ORIGIN);
    validate_delegation_envelope(&envelope).unwrap();
    if let DelegationPayload::Grant(g) = &mut envelope.event.payload {
        g.scopes.push("admin".to_owned());
    }
    assert!(matches!(validate_delegation_envelope(&envelope), Err(SdkError::InvalidEventHash { .. })));
}
