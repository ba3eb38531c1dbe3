use agent_protocols::delegation::PrincipalDescriptor;
use agent_protocols::error::SdkError;
use agent_protocols::identity::{AgentId, AgentSigner, Envelope, Event};
use agent_protocols::profile::{
    latest_profile_update, materialize_profile, profile_payload_json_text, profile_update_event, validate_profile_update, ProfileDelegationHint,
    ProfileLink, ProfileLinkRel, ProfileUpdatePayload, PROFILE_UPDATE, PROTOCOL,
};

fn name_payload(id: &AgentId, name: &str) -> String {
    format!("{{\"id\":\"{}\",\"name\":\"{}\"}}", id.as_str(), name)
}

fn sign(signer: &AgentSigner, event: Event<ProfileUpdatePayload>, json: &str) -> Envelope<ProfileUpdatePayload> {
    let written = profile_payload_json_text(&event.payload);
    assert_eq!(
        serde_json::from_str::<serde_json::Value>(&written).unwrap(),
        serde_json::from_str::<serde_json::Value>(json).unwrap(),
        "the payload's JSON is the text that was meant"
    );
    signer.sign_event(event, &written).unwrap()
}

#[test]
fn materializes_valid_profile_update() {
    let signer = AgentSigner::from_seed([11; 32]);
    let mut payload = ProfileUpdatePayload::new(signer.agent_id(), "ResearchAgent-v3");
    payload.capabilities.push("research".to_owned());
    payload.extra.push(("domain".to_owned(), "\"research\"".to_owned()));
    payload.links.push(ProfileLink {
        name: "Homepage".to_owned(),
        url: "https://example.com".to_owned(),
        rel: ProfileLinkRel::Homepage,
    });
    payload.delegations.push(ProfileDelegationHint {
        id: None,
        principal: PrincipalDescriptor {
            id: "https://al.ink/yan".to_owned(),
            kind: Some("person".to_owned()),
            name: Some("Yan".to_owned()),
        },
        relationship: Some("primary_delegate".to_owned()),
        scopes: vec!["inbox.screen".to_owned()],
        credential_url: "https://al.ink/v1/delegations/del_1".to_owned(),
        status_url: None,
    });
    let expected_extra = payload.extra.clone();
    let json = format!(
        "{{\"id\":\"{}\",\"name\":\"ResearchAgent-v3\",\"capabilities\":[\"research\"],\"links\":[{{\"name\":\"Homepage\",\"url\":\"https://example.com\",\"rel\":\"homepage\"}}],\"delegations\":[{{\"principal\":{{\"id\":\"https://al.ink/yan\",\"type\":\"person\",\"name\":\"Yan\"}},\"relationship\":\"primary_delegate\",\"scopes\":[\"inbox.screen\"],\"credential_url\":\"https://al.ink/v1/delegations/del_1\"}}],\"extra\":{{\"domain\":\"research\"}}}}",
        signer.agent_id().as_str()
    );
    let event = profile_update_event(signer.agent_id(), 1_779_753_600_000, 1, payload);
    let envelope = sign(&signer, event, &json);

    let profile = materialize_profile(&envelope).unwrap();

    assert_eq!(profile.id, signer.agent_id());
    assert_eq!(profile.name, "ResearchAgent-v3");
    assert_eq!(profile.links.len(), 1);
    assert_eq!(profile.links[0].rel, ProfileLinkRel::Homepage);
    assert_eq!(profile.delegations.len(), 1);
    assert_eq!(profile.extra, expected_extra);
    assert_eq!(profile.updated_at, 1_779_753_600_000);
    assert_eq!(profile.event_id, envelope.hash);
}

#[test]
fn latest_profile_update_picks_greatest_nonce() {
    let signer = AgentSigner::from_seed([16; 32]);
    let mut payloads = Vec::new();
    let envelopes: Vec<_> = [3_u64, 1, 2]
        .into_iter()
        .map(|nonce| {
            let name = format!("Agent-v{nonce}");
            let json = name_payload(&signer.agent_id(), &name);
            payloads.push(json.clone());
            let payload = ProfileUpdatePayload::new(signer.agent_id(), &name);
            sign(
                &signer,
                profile_update_event(signer.agent_id(), 1_779_753_600_000 + nonce as i64, nonce, payload),
                &json,
            )
        })
        .collect();

    assert!(latest_profile_update(&[]).is_none());
    let latest = latest_profile_update(&envelopes).unwrap();
    assert_eq!(latest.event.nonce, 3);
    assert_eq!(materialize_profile(latest).unwrap().name, "Agent-v3");
}

#[test]
fn rejects_actor_payload_mismatch() {
    let signer = AgentSigner::from_seed([12; 32]);
    let other = AgentSigner::from_seed([13; 32]);
    let json = name_payload(&other.agent_id(), "Imposter");
    let payload = ProfileUpdatePayload::new(other.agent_id(), "Imposter");
    let event = profile_update_event(signer.agent_id(), 1_779_753_600_000, 1, payload);
    let envelope = sign(&signer, event, &json);

    assert!(matches!(validate_profile_update(&envelope), Err(SdkError::InvalidActor(_))));
}

#[test]
fn rejects_wrong_protocol_and_type() {
    let signer = AgentSigner::from_seed([19; 32]);
    let json = name_payload(&signer.agent_id(), "ResearchAgent");

    let wrong_protocol = sign(
        &signer,
        Event::new(
            "agent-discourse/1.0",
            PROFILE_UPDATE,
            signer.agent_id(),
            1_779_753_600_000,
            1,
            ProfileUpdatePayload::new(signer.agent_id(), "ResearchAgent"),
        ),
        &json,
    );
    assert!(matches!(
        validate_profile_update(&wrong_protocol),
        Err(SdkError::InvalidEventProtocol { .. })
    ));

    let wrong_type = sign(
        &signer,
        Event::new(
            PROTOCOL,
            "profile.delete",
            signer.agent_id(),
            1_779_753_600_000,
            1,
            ProfileUpdatePayload::new(signer.agent_id(), "ResearchAgent"),
        ),
        &json,
    );
    assert!(matches!(validate_profile_update(&wrong_type), Err(SdkError::InvalidEventType { .. })));
}

#[test]
fn latest_update_prefers_the_last_of_equal_nonces() {
    let signer = AgentSigner::from_seed([20; 32]);
    let envelopes: Vec<_> = ["first", "second"]
        .into_iter()
        .map(|name| {
            let json = name_payload(&signer.agent_id(), name);
            sign(
                &signer,
                profile_update_event(signer.agent_id(), 1000, 7, ProfileUpdatePayload::new(signer.agent_id(), name)),
                &json,
            )
        })
        .collect();
    assert_eq!(latest_profile_update(&envelopes).unwrap().event.payload.name, "second");
}

#[test]
fn tampered_profile_payload_fails() {
    let signer = AgentSigner::from_seed([21; 32]);
    let json = name_payload(&signer.agent_id(), "Agent");
    let mut envelope = sign(
        &signer,
        profile_update_event(signer.agent_id(), 1000, 1, ProfileUpdatePayload::new(signer.agent_id(), "Agent")),
        &json,
    );
    envelope.event.payload.name = "Other".to_owned();
    assert!(matches!(materialize_profile(&envelope), Err(SdkError::InvalidEventHash { .. })));
}
