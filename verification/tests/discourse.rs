use agent_protocols::discourse::{
    archive_events_digest, build_server_record, can_accept_room_write, can_submit_event, can_write_in_state,
    default_kind_roles, discourse_event, event_requires_room_id, event_type, is_builtin_event_type,
    is_registered_pack_id, pack_id, pack_map, room_create_event, server_record_hash, validate_custom_event_type_name,
    validate_discourse_envelope, validate_event_against_registry, validate_message_create_payload,
    validate_pack_import, validate_room_create_payload, validate_room_path, validate_room_write,
    validate_type_declaration, verify_pack_digest, verify_server_record, verify_server_record_chain,
    MessageCreatePayload, Pack, PackDocument, PackImport, PackMap, PermissionContext, Role, RoomCreatePayload,
    RoomPolicy, RoomState, TypeDeclaration, TypeDef, TypeKind, TypeOverride, TypeRegistry, TypeStatus, Visibility,
    PROTOCOL,
};
use agent_protocols::error::SdkError;
use agent_protocols::identity::{AgentSigner, Event};
use base64::engine::general_purpose::URL_SAFE_NO_PAD;
use base64::Engine as _;
use sha2::{Digest, Sha256};

const OPEN_SCHEMA: &str = "{\"type\":\"object\"}";

fn def(name: &str, kind: TypeKind, schema: &str) -> TypeDef {
    TypeDef {
        name: name.to_owned(),
        kind,
        title: name.to_owned(),
        description: None,
        schema: schema.to_owned(),
        roles: None,
        instructions: None,
        version: None,
        status: None,
        rate_hint: None,
        max_payload_hint: None,
        extra: Vec::new(),
    }
}

fn finding_def() -> TypeDef {
    let mut d = def(
        "review.finding",
        TypeKind::Message,
        "{\"type\":\"object\",\"required\":[\"severity\",\"summary\"],\"properties\":{\"severity\":{\"type\":\"string\",\"enum\":[\"low\",\"medium\",\"high\"]},\"summary\":{\"type\":\"string\",\"minLength\":1}},\"additionalProperties\":false}",
    );
    d.title = "Review finding".to_owned();
    d
}

fn pack(id: &str, types: Vec<TypeDef>) -> Pack {
    Pack { id: id.to_owned(), title: id.to_owned(), description: None, types, extra: Vec::new() }
}

/// Stand-ins for the registered packs, with the types and kinds the
/// specification gives them.
fn registered_packs() -> PackMap {
    let vote_schema = "{\"type\":\"object\",\"required\":[\"poll_event_id\",\"option_ids\"],\"properties\":{\"poll_event_id\":{\"type\":\"string\"},\"option_ids\":{\"type\":\"array\",\"items\":{\"type\":\"string\"},\"minItems\":1}}}";
    let document = PackDocument {
        protocol: PROTOCOL.to_owned(),
        description: None,
        packs: vec![
            pack(pack_id::REACTIONS, vec![def("reaction.create", TypeKind::Signal, OPEN_SCHEMA)]),
            pack(
                pack_id::DELIBERATION,
                vec![
                    def("poll.create", TypeKind::Message, OPEN_SCHEMA),
                    def("poll.vote", TypeKind::Message, vote_schema),
                    def("question.create", TypeKind::Message, OPEN_SCHEMA),
                    def("answer.create", TypeKind::Message, OPEN_SCHEMA),
                ],
            ),
            pack(
                pack_id::CURATION,
                vec![def("resource.add", TypeKind::Message, OPEN_SCHEMA), def("graph.update", TypeKind::Control, OPEN_SCHEMA)],
            ),
        ],
    };
    pack_map(&document)
}

fn use_pack(id: &str) -> PackImport {
    PackImport { use_pack: Some(id.to_owned()), ..PackImport::default() }
}

fn observer_override() -> Vec<(String, TypeOverride)> {
    vec![(
        "poll.vote".to_owned(),
        TypeOverride { roles: Some(vec![Role::Moderator, Role::Speaker, Role::Observer]), ..TypeOverride::default() },
    )]
}

const ROOM_CREATE_JSON: &str = "{\"topic\":\"Research room\",\"visibility\":\"public\",\"start_time\":1000,\"end_time\":2000}";

#[test]
fn validates_room_create_without_room_id() {
    let signer = AgentSigner::from_seed([14; 32]);
    let payload = RoomCreatePayload::new("Research room", Visibility::Public, 1000, 2000);
    let envelope = signer.sign_event(room_create_event(signer.agent_id(), 100, 1, payload), ROOM_CREATE_JSON).unwrap();

    validate_discourse_envelope(&envelope, ROOM_CREATE_JSON).unwrap();
    validate_room_path(&envelope, "d8ftedhpqhsusbg001tg").unwrap();
}

#[test]
fn rejects_room_create_with_room_id() {
    let signer = AgentSigner::from_seed([14; 32]);
    let payload = RoomCreatePayload::new("Research room", Visibility::Public, 1000, 2000);
    let event = room_create_event(signer.agent_id(), 100, 1, payload).with_room_id("d8ftedhpqhsusbg001tg");
    let envelope = signer.sign_event(event, ROOM_CREATE_JSON).unwrap();

    assert!(matches!(validate_discourse_envelope(&envelope, ROOM_CREATE_JSON), Err(SdkError::InvalidPayload(_))));
    assert!(validate_room_path(&envelope, "d8ftedhpqhsusbg001tg").is_err());
}

#[test]
fn rejects_room_event_without_room_id() {
    let signer = AgentSigner::from_seed([15; 32]);
    let json = "{\"content_type\":\"text/plain\",\"content\":\"hello\"}";
    let event =
        Event::new(PROTOCOL, event_type::MESSAGE_CREATE, signer.agent_id(), 100, 1, MessageCreatePayload::text("hello"));
    let envelope = signer.sign_event(event, json).unwrap();

    assert!(matches!(validate_discourse_envelope(&envelope, json), Err(SdkError::MissingRoomId)));
}

#[test]
fn validates_custom_event_type_names() {
    validate_custom_event_type_name("review.finding").unwrap();
    validate_custom_event_type_name("poll.vote").unwrap();
    assert!(validate_custom_event_type_name("freeform").is_err());
    assert!(validate_custom_event_type_name("room.custom").is_err());
    assert!(validate_custom_event_type_name("type.new").is_err());
    assert!(validate_custom_event_type_name("message.create").is_err());
    assert!(validate_custom_event_type_name("Bad.Name").is_err());
}

#[test]
fn materializes_registry_from_packs_and_inline_defs() {
    let packs = registered_packs();
    let declarations = vec![
        TypeDeclaration::Import(use_pack(pack_id::REACTIONS)),
        TypeDeclaration::Import(PackImport { overrides: observer_override(), ..use_pack(pack_id::DELIBERATION) }),
        TypeDeclaration::Def(finding_def()),
    ];
    let registry = TypeRegistry::from_declarations(&declarations, &packs).unwrap();

    assert_eq!(registry.len(), 6);
    assert!(registry.contains("reaction.create"));
    assert!(registry.contains("poll.create"));
    assert!(registry.contains("review.finding"));
    let vote = registry.get("poll.vote").unwrap();
    assert_eq!(vote.roles.as_deref(), Some([Role::Moderator, Role::Speaker, Role::Observer].as_slice()));

    let subset = TypeDeclaration::Import(PackImport {
        types: Some(vec!["poll.create".to_owned(), "poll.vote".to_owned()]),
        ..use_pack(pack_id::DELIBERATION)
    });
    let registry = TypeRegistry::from_declarations(&[subset], &packs).unwrap();
    assert_eq!(registry.len(), 2);
    assert!(!registry.contains("question.create"));
}

#[test]
fn rejects_bad_pack_imports() {
    let packs = registered_packs();
    let unknown = TypeDeclaration::Import(use_pack("adp:unknown/1.0"));
    assert!(matches!(TypeRegistry::from_declarations(&[unknown], &packs), Err(SdkError::PackUnavailable(_))));

    let bad_override = TypeDeclaration::Import(PackImport {
        overrides: vec![("poll.vote".to_owned(), TypeOverride::default())],
        ..use_pack(pack_id::REACTIONS)
    });
    assert!(TypeRegistry::from_declarations(&[bad_override], &packs).is_err());

    let both = PackImport {
        pack: Some("https://example.com/p.json".to_owned()),
        digest: Some("sha256:abc".to_owned()),
        ..use_pack(pack_id::REACTIONS)
    };
    assert!(validate_pack_import(&both).is_err());
}

#[test]
fn latest_type_definition_wins() {
    let mut registry = TypeRegistry::new();
    registry.define(finding_def()).unwrap();
    let mut redefined = finding_def();
    redefined.status = Some(TypeStatus::Disabled);
    registry.define(redefined).unwrap();
    assert_eq!(registry.get("review.finding").unwrap().status(), TypeStatus::Disabled);
    assert_eq!(registry.len(), 1);
}

#[test]
fn validates_custom_payloads_against_pack_schemas() {
    let packs = registered_packs();
    let registry =
        TypeRegistry::from_declarations(&[TypeDeclaration::Import(use_pack(pack_id::DELIBERATION))], &packs).unwrap();

    let hash = "GDt8oHZQfQ3jl5ZUfyNxKZu07yAJdDYuaw_jf_JjLYs";
    registry.validate_payload("poll.vote", &format!("{{\"poll_event_id\":\"{hash}\",\"option_ids\":[\"a\"]}}")).unwrap();
    assert!(matches!(
        registry.validate_payload("poll.vote", &format!("{{\"poll_event_id\":\"{hash}\"}}")),
        Err(SdkError::PayloadSchemaViolation(_))
    ));
    assert!(matches!(registry.validate_payload("turn.update", "{}"), Err(SdkError::TypeNotDefined(_))));

    let mut disabled = TypeRegistry::new();
    let mut d = finding_def();
    d.status = Some(TypeStatus::Disabled);
    disabled.define(d).unwrap();
    assert!(matches!(
        disabled.validate_payload("review.finding", "{\"severity\":\"high\",\"summary\":\"s\"}"),
        Err(SdkError::TypeDisabled(_))
    ));
}

#[test]
fn applies_kind_based_permissions() {
    let packs = registered_packs();
    let registry = TypeRegistry::from_declarations(
        &[
            TypeDeclaration::Import(use_pack(pack_id::REACTIONS)),
            TypeDeclaration::Import(PackImport { overrides: observer_override(), ..use_pack(pack_id::DELIBERATION) }),
            TypeDeclaration::Import(use_pack(pack_id::CURATION)),
        ],
        &packs,
    )
    .unwrap();

    let observer = PermissionContext::for_role(Role::Observer);
    let speaker = PermissionContext::for_role(Role::Speaker);
    let moderator = PermissionContext::for_role(Role::Moderator);
    let creator = PermissionContext::creator(Some(Role::Observer));

    assert!(can_submit_event("reaction.create", &observer, &registry));
    assert!(can_submit_event("poll.vote", &observer, &registry));
    assert!(can_submit_event("resource.add", &speaker, &registry));
    assert!(!can_submit_event("resource.add", &observer, &registry));
    assert!(can_submit_event("graph.update", &moderator, &registry));
    assert!(!can_submit_event("graph.update", &speaker, &registry));
    assert!(can_submit_event("graph.update", &creator, &registry));
    assert!(can_submit_event(event_type::MESSAGE_CREATE, &creator, &registry));
    assert!(!can_submit_event("session.offer", &speaker, &registry));

    assert!(can_submit_event(event_type::ROOM_JOIN_REVIEW, &moderator, &registry));
    assert!(!can_submit_event(event_type::ROOM_JOIN_REVIEW, &speaker, &registry));
    assert!(can_submit_event(event_type::ROOM_MEMBER_ROLE_UPDATE, &moderator, &registry));
    assert!(can_submit_event(event_type::ROOM_CANCEL, &moderator, &registry));
    assert!(can_submit_event(event_type::TYPE_DEFINE, &moderator, &registry));
    assert!(!can_submit_event(event_type::TYPE_DEFINE, &speaker, &registry));
    assert!(can_submit_event(event_type::MESSAGE_CREATE, &speaker, &registry));
    assert!(!can_submit_event(event_type::MESSAGE_CREATE, &observer, &registry));
    assert!(can_submit_event(event_type::ROOM_LEAVE, &observer, &registry));
    assert!(!can_submit_event(event_type::ROOM_JOIN, &observer, &registry));
    let approved = PermissionContext { join_request_approved: true, ..PermissionContext::default() };
    assert!(can_submit_event(event_type::ROOM_JOIN, &approved, &registry));
}

#[test]
fn applies_state_restrictions() {
    let registry = TypeRegistry::new();
    let speaker = PermissionContext::for_role(Role::Speaker);
    let moderator = PermissionContext::for_role(Role::Moderator);

    assert!(can_accept_room_write(event_type::MESSAGE_CREATE, RoomState::Active, &speaker, &registry));
    assert!(!can_accept_room_write(event_type::MESSAGE_CREATE, RoomState::Scheduled, &speaker, &registry));
    assert!(can_write_in_state(event_type::ROOM_JOIN_REVIEW, RoomState::Scheduled));
    assert!(can_write_in_state(event_type::ROOM_MEMBER_ROLE_UPDATE, RoomState::Scheduled));
    assert!(can_write_in_state(event_type::ROOM_LEAVE, RoomState::Scheduled));
    assert!(can_write_in_state(event_type::TYPE_DEFINE, RoomState::Scheduled));
    assert!(can_write_in_state(event_type::ROOM_CANCEL, RoomState::Scheduled));
    assert!(!can_write_in_state(event_type::ROOM_CLOSE, RoomState::Scheduled));
    assert!(can_accept_room_write(event_type::TYPE_DEFINE, RoomState::Scheduled, &moderator, &registry));
    assert!(!can_write_in_state("reaction.create", RoomState::Ended));
    assert!(!can_write_in_state(event_type::ROOM_LEAVE, RoomState::Ended));
    assert!(!can_write_in_state(event_type::ROOM_JOIN, RoomState::Cancelled));
    assert!(can_write_in_state(event_type::ROOM_CLOSE, RoomState::Active));
    assert!(!can_write_in_state(event_type::ROOM_CANCEL, RoomState::Active));
}

#[test]
fn validates_room_creation_payloads() {
    let mut payload = RoomCreatePayload::new("Research room", Visibility::Public, 1000, 2000);
    payload.policy = Some(RoomPolicy { max_speakers: Some(2), ..RoomPolicy::default() });
    payload.guidance = Some("Cite sources.".to_owned());
    payload.types = vec![TypeDeclaration::Import(use_pack(pack_id::REACTIONS)), TypeDeclaration::Def(finding_def())];
    validate_room_create_payload(&payload).unwrap();

    let empty_topic = RoomCreatePayload::new(" ", Visibility::Public, 1000, 2000);
    assert!(validate_room_create_payload(&empty_topic).is_err());

    let invalid_time = RoomCreatePayload::new("Research room", Visibility::Public, 2000, 1000);
    assert!(validate_room_create_payload(&invalid_time).is_err());

    let mut zero_speakers = RoomCreatePayload::new("Research room", Visibility::Public, 1000, 2000);
    zero_speakers.policy = Some(RoomPolicy { max_speakers: Some(0), ..RoomPolicy::default() });
    assert!(validate_room_create_payload(&zero_speakers).is_err());

    let mut reserved = RoomCreatePayload::new("Research room", Visibility::Public, 1000, 2000);
    let mut bad_def = finding_def();
    bad_def.name = "room.custom".to_owned();
    reserved.types = vec![TypeDeclaration::Def(bad_def)];
    assert!(validate_room_create_payload(&reserved).is_err());
}

#[test]
fn verifies_pack_digests() {
    let bytes = b"pack document bytes";
    let digest = format!("sha256:{}", URL_SAFE_NO_PAD.encode(Sha256::digest(bytes)));
    verify_pack_digest(bytes, &digest).unwrap();
    assert!(matches!(verify_pack_digest(b"tampered", &digest), Err(SdkError::PackUnavailable(_))));
    assert!(verify_pack_digest(bytes, "md5:abc").is_err());
    assert!(verify_pack_digest(bytes, "not-a-digest").is_err());
}

#[test]
fn builds_and_verifies_server_record_chains() {
    let signer = AgentSigner::from_seed([18; 32]);
    let create_json = ROOM_CREATE_JSON.to_owned();
    let envelope1 = signer
        .sign_event(
            Event::new(PROTOCOL, event_type::ROOM_CREATE, signer.agent_id(), 100, 1, create_json.clone()),
            &create_json,
        )
        .unwrap();
    let record1 = build_server_record("room123", 1, None, 110, envelope1).unwrap();

    let message_json = "{\"content_type\":\"text/plain\",\"content\":\"hello\"}".to_owned();
    let envelope2 = signer
        .sign_event(
            discourse_event(event_type::MESSAGE_CREATE, signer.agent_id(), 120, 2, "room123", message_json.clone()),
            &message_json,
        )
        .unwrap();
    let record2 = build_server_record("room123", 2, Some(record1.hash.clone()), 130, envelope2).unwrap();

    assert_eq!(record1.hash, server_record_hash("room123", 1, None, &record1.envelope.hash, 110).unwrap());
    assert_eq!(record1.hash.len(), 43);
    verify_server_record(&record1).unwrap();
    let mut records = vec![record1, record2];
    verify_server_record_chain(&records).unwrap();
    assert_eq!(archive_events_digest(&records, &[create_json, message_json]).unwrap().len(), 43);
    assert!(verify_server_record_chain(&records[1..]).is_err());

    let mut broken = records.remove(0);
    broken.pre_hash = Some("bad".to_owned());
    assert!(verify_server_record_chain(&[broken]).is_err());
}

#[test]
fn builtin_types_and_room_ids() {
    assert!(is_builtin_event_type(event_type::ROOM_CREATE));
    assert!(is_builtin_event_type(event_type::MESSAGE_CREATE));
    assert!(!is_builtin_event_type("poll.vote"));
    assert!(!event_requires_room_id(event_type::ROOM_CREATE));
    assert!(event_requires_room_id(event_type::ROOM_JOIN));
    assert!(is_registered_pack_id(pack_id::REALTIME));
    assert!(is_registered_pack_id("adp:my-pack/12.0"));
    assert!(!is_registered_pack_id("adp:My/1.0"));
    assert!(!is_registered_pack_id("adp:pack/1"));
    assert!(!is_registered_pack_id("adp:pack/1.0.0"));
    assert!(!is_registered_pack_id("adp:/1.0"));
    assert!(!is_registered_pack_id("pack/1.0"));
}

#[test]
fn permissions_and_writes() {
    let registry = TypeRegistry::new();
    assert_eq!(default_kind_roles(TypeKind::Control), vec![Role::Moderator]);
    assert_eq!(default_kind_roles(TypeKind::Signal).len(), 3);
    let creator = PermissionContext::creator(None);
    validate_room_write(event_type::ROOM_CLOSE, RoomState::Active, &creator, &registry).unwrap();
    assert!(matches!(
        validate_room_write(event_type::ROOM_CLOSE, RoomState::Ended, &creator, &registry),
        Err(SdkError::PermissionDenied)
    ));
    assert!(!can_submit_event(event_type::ROOM_JOIN, &creator, &registry));
}

#[test]
fn registry_lists_definitions_in_name_order() {
    let mut registry = TypeRegistry::new();
    assert!(registry.is_empty());
    registry.define(def("zeta.event", TypeKind::Signal, OPEN_SCHEMA)).unwrap();
    registry.define(def("alpha.event", TypeKind::Signal, OPEN_SCHEMA)).unwrap();
    registry.define(def("mid.event", TypeKind::Signal, OPEN_SCHEMA)).unwrap();
    let names: Vec<&str> = registry.definitions().iter().map(|d| d.name.as_str()).collect();
    assert_eq!(names, vec!["alpha.event", "mid.event", "zeta.event"]);
    assert!(registry.define(def("bad", TypeKind::Signal, OPEN_SCHEMA)).is_err());
    assert!(registry.define(def("ok.name", TypeKind::Signal, "[1]")).is_err());
    assert!(registry.define(def("ok.name", TypeKind::Signal, "{\"type\":7}")).is_err());
    assert_eq!(registry.len(), 3);
}

#[test]
fn builtin_payloads_skip_the_registry() {
    let registry = TypeRegistry::new();
    validate_event_against_registry(event_type::MESSAGE_CREATE, "{}", &registry).unwrap();
    assert!(matches!(
        validate_event_against_registry("poll.vote", "{}", &registry),
        Err(SdkError::TypeNotDefined(_))
    ));
    validate_message_create_payload(&MessageCreatePayload::markdown("# hi")).unwrap();
    assert!(validate_message_create_payload(&MessageCreatePayload::new(" ", "1")).is_err());
    assert!(validate_type_declaration(&TypeDeclaration::Import(PackImport {
        types: Some(Vec::new()),
        ..use_pack(pack_id::REACTIONS)
    }))
    .is_err());
    let mut packs = PackMap::new();
    packs.insert("x".to_owned(), pack("x", Vec::new()));
    assert!(packs.get("x").is_some());
    assert!(packs.get("y").is_none());
}

#[test]
fn type_name_and_chain_errors_say_what_failed() {
    assert!(matches!(
        validate_custom_event_type_name("room.join"),
        Err(SdkError::InvalidPayload(m)) if m == "room.join is a built-in event type"
    ));
    assert!(matches!(
        validate_custom_event_type_name("room.custom"),
        Err(SdkError::InvalidPayload(m)) if m == "room.custom uses a reserved type prefix"
    ));
    assert!(matches!(
        validate_custom_event_type_name("Bad"),
        Err(SdkError::InvalidPayload(m)) if m == "invalid event type name: Bad"
    ));
}

#[test]
fn pack_import_errors_name_the_type_and_pack() {
    let packs = registered_packs();
    let unknown = TypeDeclaration::Import(use_pack("adp:unknown/1.0"));
    assert!(matches!(
        TypeRegistry::from_declarations(&[unknown], &packs),
        Err(SdkError::PackUnavailable(m)) if m == "adp:unknown/1.0"
    ));
    let subset = TypeDeclaration::Import(PackImport {
        types: Some(vec!["reaction.create".to_owned(), "poll.vote".to_owned()]),
        ..use_pack(pack_id::REACTIONS)
    });
    let expected = format!("type poll.vote is not in pack {}", pack_id::REACTIONS);
    assert!(matches!(
        TypeRegistry::from_declarations(&[subset], &packs),
        Err(SdkError::PackUnavailable(m)) if m == expected
    ));
    let strays = TypeDeclaration::Import(PackImport {
        overrides: vec![
            ("zeta.type".to_owned(), TypeOverride::default()),
            ("poll.vote".to_owned(), TypeOverride::default()),
        ],
        ..use_pack(pack_id::REACTIONS)
    });
    let expected = format!("override target poll.vote is not imported from pack {}", pack_id::REACTIONS);
    assert!(matches!(
        TypeRegistry::from_declarations(&[strays], &packs),
        Err(SdkError::InvalidPayload(m)) if m == expected
    ));
}

#[test]
fn record_chain_errors_say_which_link_failed() {
    let signer = AgentSigner::from_seed([15; 32]);
    let create_json = ROOM_CREATE_JSON.to_owned();
    let envelope = signer
        .sign_event(
            Event::new(PROTOCOL, event_type::ROOM_CREATE, signer.agent_id(), 100, 1, create_json.clone()),
            &create_json,
        )
        .unwrap();
    let second = build_server_record("room9", 2, None, 110, envelope).unwrap();
    assert!(matches!(
        verify_server_record_chain(&[second]),
        Err(SdkError::InvalidPayload(m)) if m == "first seq must be 1"
    ));
    let envelope = signer
        .sign_event(
            Event::new(PROTOCOL, event_type::ROOM_CREATE, signer.agent_id(), 100, 1, create_json.clone()),
            &create_json,
        )
        .unwrap();
    let first = build_server_record("room9", 1, Some("x".to_owned()), 110, envelope).unwrap();
    assert!(matches!(
        verify_server_record_chain(&[first]),
        Err(SdkError::InvalidPayload(m)) if m == "first pre_hash must be null"
    ));
    let envelope = signer
        .sign_event(
            Event::new(PROTOCOL, event_type::ROOM_CREATE, signer.agent_id(), 100, 1, create_json.clone()),
            &create_json,
        )
        .unwrap();
    let first = build_server_record("room9", 1, None, 110, envelope).unwrap();
    let message_json = "{\"content_type\":\"text/plain\",\"content\":\"hi\"}".to_owned();
    let envelope = signer
        .sign_event(
            discourse_event(event_type::MESSAGE_CREATE, signer.agent_id(), 120, 2, "room9", message_json.clone()),
            &message_json,
        )
        .unwrap();
    let skipped = build_server_record("room9", 3, Some(first.hash.clone()), 130, envelope).unwrap();
    let records = vec![first, skipped];
    assert!(matches!(
        verify_server_record_chain(&records),
        Err(SdkError::InvalidPayload(m)) if m == "seq must increase by 1"
    ));
}
