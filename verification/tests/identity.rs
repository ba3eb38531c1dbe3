use agent_protocols::identity::parse_u64;
use agent_protocols::text::is_whitespace;
use agent_protocols::error::SdkError;
use agent_protocols::identity::{
    unix_ms, unix_secs, validate_nonce, verify_envelope, verify_live_envelope, verify_request_jwt, verify_timestamp,
    AgentId, AgentSigner, ClientNonceManager, Event, LiveWriteOptions, MemoryNonceStore, RequestAuthContext,
    RequestBinding, RequestJwtClaims, RequestJwtHeader, MAX_SAFE_NONCE,
};
use base64::engine::general_purpose::URL_SAFE_NO_PAD;
use base64::Engine as _;

fn profile_payload(id: &AgentId, name: &str) -> String {
    format!("{{\"id\":\"{}\",\"name\":\"{}\"}}", id.as_str(), name)
}

fn decoded_segment(token: &str, index: usize) -> serde_json::Value {
    let segment = token.split('.').nth(index).unwrap();
    serde_json::from_slice(&URL_SAFE_NO_PAD.decode(segment).unwrap()).unwrap()
}

/// The header and claims a token's segments hold, as a caller reads them.
fn read(token: &str) -> (RequestJwtHeader, RequestJwtClaims) {
    let header = decoded_segment(token, 0);
    let claims = decoded_segment(token, 1);
    let id = |v: &serde_json::Value| AgentId::parse(v.as_str().unwrap()).unwrap();
    (
        RequestJwtHeader {
            alg: header["alg"].as_str().unwrap().to_owned(),
            typ: header["typ"].as_str().unwrap().to_owned(),
            kid: id(&header["kid"]),
        },
        RequestJwtClaims {
            iss: id(&claims["iss"]),
            sub: id(&claims["sub"]),
            aud: claims["aud"].as_str().unwrap().to_owned(),
            iat: claims["iat"].as_i64().unwrap(),
            exp: claims["exp"].as_i64().unwrap(),
        },
    )
}

fn verify(token: &str, context: &RequestAuthContext) -> Result<RequestJwtClaims, SdkError> {
    let (header, claims) = read(token);
    verify_request_jwt(token, &header, &claims, context)
}

#[test]
fn signs_and_verifies_event_envelope() {
    let signer = AgentSigner::from_seed([7; 32]);
    let payload = profile_payload(&signer.agent_id(), "ResearchAgent");
    let event = Event::new(
        "agent-profile/1.0",
        "profile.update",
        signer.agent_id(),
        1_779_753_600_000,
        1,
        payload.clone(),
    );

    let envelope = signer.sign_event(event, &payload).unwrap();

    assert!(!envelope.hash.starts_with("evt_"));
    assert_eq!(envelope.hash.len(), 43);
    verify_envelope(&envelope, &payload).unwrap();
}

#[test]
fn rejects_tampered_event_payload() {
    let signer = AgentSigner::from_seed([8; 32]);
    let before = "{\"name\":\"before\"}".to_owned();
    let event = Event::new(
        "agent-profile/1.0",
        "profile.update",
        signer.agent_id(),
        1_779_753_600_000,
        1,
        before.clone(),
    );
    let mut envelope = signer.sign_event(event, &before).unwrap();
    let after = "{\"name\":\"after\"}".to_owned();
    envelope.event.payload = after.clone();

    assert!(verify_envelope(&envelope, &after).is_err());
}

#[test]
fn rejects_nonce_reuse() {
    let signer = AgentSigner::from_seed([9; 32]);
    let options = LiveWriteOptions { now_ms: 1000, window_ms: 1000, nonce_ttl_ms: 1000 };
    let payload = "{\"name\":\"ResearchAgent\"}".to_owned();
    let event = Event::new("agent-profile/1.0", "profile.update", signer.agent_id(), 1000, 1, payload.clone());
    let envelope = signer.sign_event(event, &payload).unwrap();
    let mut store = MemoryNonceStore::new();

    let max_nonce = verify_live_envelope(&envelope, &payload, &options, &mut store).unwrap();
    assert_eq!(max_nonce, 1);
    assert!(matches!(
        verify_live_envelope(&envelope, &payload, &options, &mut store),
        Err(SdkError::NonceNotGreater { max_nonce: 1 })
    ));
}

#[test]
fn client_nonce_manager_observes_server_max() {
    let mut manager = ClientNonceManager::new();

    assert_eq!(manager.next_nonce().unwrap(), 1);
    manager.observe_max_nonce(5);

    assert_eq!(manager.peek(), 6);
    assert_eq!(manager.next_nonce().unwrap(), 6);
}

#[test]
fn rejects_nonce_values_outside_safe_json_integer_range() {
    let signer = AgentSigner::from_seed([16; 32]);
    let payload = profile_payload(&signer.agent_id(), "ResearchAgent");
    let event = Event::new(
        "agent-profile/1.0",
        "profile.update",
        signer.agent_id(),
        1000,
        MAX_SAFE_NONCE + 1,
        payload.clone(),
    );

    assert!(matches!(signer.sign_event(event, &payload), Err(SdkError::InvalidNonce(_))));
}

#[test]
fn signs_and_verifies_request_jwt() {
    let signer = AgentSigner::from_seed([10; 32]);
    let claims = RequestJwtClaims::new(signer.agent_id(), RequestBinding::new("https://api.example.com"), 100, 300);
    let token = signer.sign_request_jwt(&claims).unwrap();
    let header = decoded_segment(&token, 0);
    assert_eq!(header["alg"], "EdDSA");
    assert_eq!(header["typ"], "JWT");
    assert_eq!(header["kid"], signer.agent_id().as_str());
    let body = decoded_segment(&token, 1);
    assert_eq!(body["aud"], "https://api.example.com");
    assert_eq!(body["iat"], 100);
    assert_eq!(body["exp"], 400);
    let context =
        RequestAuthContext { audience: "https://api.example.com".to_owned(), now_secs: 120, max_ttl_secs: 300 };
    let verified = verify(&token, &context).unwrap();

    assert_eq!(verified.iss, signer.agent_id());
}

#[test]
fn rejects_request_jwts_with_non_positive_ttl() {
    let signer = AgentSigner::from_seed([17; 32]);
    let claims = RequestJwtClaims::new(signer.agent_id(), RequestBinding::new("https://api.example.com"), 100, 0);
    let token = signer.sign_request_jwt(&claims).unwrap();
    let context =
        RequestAuthContext { audience: "https://api.example.com".to_owned(), now_secs: 100, max_ttl_secs: 300 };

    assert!(matches!(
        verify(&token, &context),
        Err(SdkError::InvalidJwtClaim("exp/iat"))
    ));
}

#[test]
fn agent_id_reads_back_its_public_key() {
    let key = [3u8; 32];
    let id = AgentId::from_public_key(&key);
    assert!(id.as_str().starts_with("did:agent:"));
    assert_eq!(id.public_key_bytes().unwrap(), key);
    assert_eq!(AgentId::parse(id.as_str()).unwrap(), id);
    assert_eq!(AgentId::try_from(id.as_str().to_owned()).unwrap(), id);
}

#[test]
fn agent_id_errors_name_the_failure() {
    assert!(matches!(AgentId::parse("did:web:example.com"), Err(SdkError::InvalidAgentIdPrefix)));
    assert!(matches!(AgentId::parse("did:agent:!!"), Err(SdkError::Base64)));
    assert!(matches!(AgentId::parse("did:agent:AAAA"), Err(SdkError::InvalidPublicKeyLength(3))));
}

#[test]
fn nonce_and_timestamp_bounds() {
    assert!(validate_nonce(0).is_err());
    validate_nonce(1).unwrap();
    validate_nonce(MAX_SAFE_NONCE).unwrap();
    verify_timestamp(1000, 1500, 500).unwrap();
    assert!(matches!(verify_timestamp(1000, 1501, 500), Err(SdkError::TimestampOutOfWindow)));
    assert!(matches!(verify_timestamp(2001, 1500, 500), Err(SdkError::TimestampOutOfWindow)));
    assert!(unix_ms() > 0);
    assert!(unix_secs() > 0);
}

#[test]
fn nonce_store_accepts_after_expiry() {
    let mut store = MemoryNonceStore::new();
    let signer = AgentSigner::from_seed([4; 32]);
    let id = signer.agent_id();
    assert_eq!(store.check_and_update(&id, 5, 1000, 100).unwrap(), 5);
    assert!(matches!(store.check_and_update(&id, 5, 1050, 100), Err(SdkError::NonceNotGreater { max_nonce: 5 })));
    assert_eq!(store.max_nonce(&id, 1050), Some(5));
    assert_eq!(store.max_nonce(&id, 1100), None);
    assert_eq!(store.check_and_update(&id, 1, 1100, 100).unwrap(), 1);
}

#[test]
fn nonce_manager_reads_server_header() {
    let mut manager = ClientNonceManager::with_next(3).unwrap();
    manager.observe_max_nonce_header("10").unwrap();
    assert_eq!(manager.peek(), 11);
    assert!(manager.observe_max_nonce_header("ten").is_err());
    assert!(ClientNonceManager::with_next(0).is_err());
}

#[test]
fn request_jwt_claims_come_from_the_token() {
    let signer = AgentSigner::from_seed([19; 32]);
    let other = AgentSigner::from_seed([20; 32]);
    let context =
        RequestAuthContext { audience: "https://api.example.com".to_owned(), now_secs: 120, max_ttl_secs: 300 };
    let mine = signer
        .sign_request_jwt(&RequestJwtClaims::new(signer.agent_id(), RequestBinding::new("https://api.example.com"), 100, 300))
        .unwrap();
    let theirs = other
        .sign_request_jwt(&RequestJwtClaims::new(other.agent_id(), RequestBinding::new("https://api.example.com"), 100, 300))
        .unwrap();
    let verified = verify(&theirs, &context).unwrap();
    assert_eq!(verified.sub, other.agent_id());
    assert_eq!(verified.exp, 400);

    let m: Vec<&str> = mine.split('.').collect();
    let t: Vec<&str> = theirs.split('.').collect();
    let spliced = format!("{}.{}.{}", m[0], t[1], m[2]);
    assert!(matches!(verify(&spliced, &context), Err(SdkError::InvalidJwtClaim("kid/iss/sub"))));
    let resigned = format!("{}.{}.{}", t[0], t[1], m[2]);
    assert!(matches!(verify(&resigned, &context), Err(SdkError::Ed25519)));
    let (their_header, their_claims) = read(&theirs);
    let (_, my_claims) = read(&mine);
    match verify_request_jwt(&theirs, &their_header, &my_claims, &context) {
        Err(SdkError::InvalidJwt(m)) => assert_eq!(m, "header or claims do not match the token"),
        other => panic!("unexpected {:?}", other.err()),
    }
    let bad = format!("!!.{}.{}", t[1], t[2]);
    assert!(matches!(verify_request_jwt(&bad, &their_header, &their_claims, &context), Err(SdkError::Base64)));
    let not_json = URL_SAFE_NO_PAD.encode(b"not json");
    match verify_request_jwt(&format!("{not_json}.{}.{}", t[1], t[2]), &their_header, &their_claims, &context) {
        Err(SdkError::Json(m)) => assert_eq!(m, "invalid request JWT header"),
        other => panic!("unexpected {:?}", other.err()),
    }
    match verify_request_jwt(&format!("{}.{not_json}.{}", t[0], t[2]), &their_header, &their_claims, &context) {
        Err(SdkError::Json(m)) => assert_eq!(m, "invalid request JWT claims"),
        other => panic!("unexpected {:?}", other.err()),
    }
    assert!(matches!(verify_request_jwt("a.b", &their_header, &their_claims, &context), Err(SdkError::InvalidJwt(_))));
}

#[test]
fn decimal_reading_and_white_space_agree_with_std() {
    for text in ["0", "42", "+7", "007", "18446744073709551615", "18446744073709551616", "", "+", "-1", "1a", " 1", "99999999999999999999"] {
        assert_eq!(parse_u64(text), text.parse::<u64>().ok(), "{text:?}");
    }
    for c in (0..=0x3100u32).filter_map(char::from_u32) {
        assert_eq!(is_whitespace(c), c.is_whitespace(), "{:x}", c as u32);
    }
    assert_eq!(is_whitespace('\u{10FFFF}'), '\u{10FFFF}'.is_whitespace());
}
