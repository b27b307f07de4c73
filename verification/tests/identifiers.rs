use loomex_protocol::{
    agent_attempt_delivery_idempotency_preimage, agent_attempt_task_idempotency_preimage,
    validate_agent_attempt_delivery_idempotency_key, validate_agent_attempt_task_idempotency_key,
    validate_agent_payload_digest, validate_cli_identifier, validate_idempotency_key,
    AgentDigestIdentifierValidationError, CliIdentifierValidationError,
    MAX_IDEMPOTENCY_KEY_LENGTH, MAX_MODEL_KEY_LENGTH, MAX_PROVIDER_MODEL_ID_LENGTH,
    MAX_PROVIDER_SESSION_ID_LENGTH,
};

#[test]
fn cli_identifier_grammar_accepts_realistic_provider_model_and_session_ids() {
    for value in [
        "openai/gpt-5.2-codex:high",
        "sonnet-4-6@20260727",
        "gemini-2.5-pro-preview-06-05",
        "019f9fd8-0a33-7002-98e9-9103e64ceb58",
        "provider_session:01+resume",
    ] {
        validate_cli_identifier(value, MAX_PROVIDER_SESSION_ID_LENGTH).unwrap();
    }
}

#[test]
fn cli_identifier_grammar_rejects_flags_controls_oversize_and_traversal() {
    assert_eq!(
        validate_cli_identifier("-gpt-5.2", MAX_PROVIDER_MODEL_ID_LENGTH),
        Err(CliIdentifierValidationError::UnsafeFirstCharacter)
    );
    assert_eq!(
        validate_cli_identifier("gpt-5.2\n--help", MAX_PROVIDER_MODEL_ID_LENGTH),
        Err(CliIdentifierValidationError::UnsafeCharacter { index: 7 })
    );
    assert_eq!(
        validate_cli_identifier("gpt 5.2", MAX_PROVIDER_MODEL_ID_LENGTH),
        Err(CliIdentifierValidationError::UnsafeCharacter { index: 3 })
    );
    assert_eq!(
        validate_cli_identifier(
            &"a".repeat(MAX_PROVIDER_MODEL_ID_LENGTH + 1),
            MAX_PROVIDER_MODEL_ID_LENGTH,
        ),
        Err(CliIdentifierValidationError::TooLong {
            max: MAX_PROVIDER_MODEL_ID_LENGTH
        })
    );
    assert_eq!(
        validate_cli_identifier("openai/../secret", MAX_MODEL_KEY_LENGTH),
        Err(CliIdentifierValidationError::TraversalLikeSegment)
    );
    assert_eq!(
        validate_cli_identifier("model\0id", MAX_PROVIDER_MODEL_ID_LENGTH),
        Err(CliIdentifierValidationError::UnsafeCharacter { index: 5 })
    );
}

#[test]
fn cli_identifier_rejects_empty_and_accepts_the_exact_length_limit() {
    assert_eq!(
        validate_cli_identifier("", MAX_MODEL_KEY_LENGTH),
        Err(CliIdentifierValidationError::Empty)
    );
    validate_cli_identifier(&"a".repeat(MAX_MODEL_KEY_LENGTH), MAX_MODEL_KEY_LENGTH).unwrap();
    assert_eq!(
        validate_cli_identifier("a/..", MAX_MODEL_KEY_LENGTH),
        Err(CliIdentifierValidationError::TraversalLikeSegment)
    );
    assert_eq!(
        validate_cli_identifier("a/./b", MAX_MODEL_KEY_LENGTH),
        Err(CliIdentifierValidationError::TraversalLikeSegment)
    );
    validate_cli_identifier("a/..b/c", MAX_MODEL_KEY_LENGTH).unwrap();
    assert_eq!(
        validate_cli_identifier("caf\u{e9}", MAX_MODEL_KEY_LENGTH),
        Err(CliIdentifierValidationError::UnsafeCharacter { index: 3 })
    );
}

#[test]
fn idempotency_key_grammar_accepts_domain_separators_and_rejects_unsafe_bytes() {
    validate_idempotency_key("workflow/run:node_1@attempt+2.key-id").unwrap();

    for (value, expected) in [
        (
            "-workflow:attempt",
            CliIdentifierValidationError::UnsafeFirstCharacter,
        ),
        (
            "workflow attempt",
            CliIdentifierValidationError::UnsafeCharacter { index: 8 },
        ),
        (
            "workflow\0attempt",
            CliIdentifierValidationError::UnsafeCharacter { index: 8 },
        ),
        (
            "workflow\nattempt",
            CliIdentifierValidationError::UnsafeCharacter { index: 8 },
        ),
    ] {
        assert_eq!(validate_idempotency_key(value), Err(expected));
    }
}

#[test]
fn idempotency_key_accepts_any_slash_segments_of_its_grammar() {
    for value in ["run/", "a//b", "a/./b", "a/../b", "workflow/."] {
        assert_eq!(validate_idempotency_key(value), Ok(()));
    }
    // The segment rule still applies to provider-facing identifiers.
    assert_eq!(
        validate_cli_identifier("run/", MAX_IDEMPOTENCY_KEY_LENGTH),
        Err(CliIdentifierValidationError::TraversalLikeSegment)
    );
}

#[test]
fn idempotency_key_limit_is_one_hundred_and_sixty_bytes() {
    validate_idempotency_key(&"a".repeat(MAX_IDEMPOTENCY_KEY_LENGTH)).unwrap();
    assert_eq!(
        validate_idempotency_key(&"a".repeat(MAX_IDEMPOTENCY_KEY_LENGTH + 1)),
        Err(CliIdentifierValidationError::TooLong {
            max: MAX_IDEMPOTENCY_KEY_LENGTH
        })
    );
}

#[test]
fn attempt_keys_and_digests_are_prefixed_lowercase_sha256() {
    let hex = "0123456789abcdef".repeat(4);
    validate_agent_attempt_task_idempotency_key(&format!("loomex-agent-attempt-v2:{hex}"))
        .unwrap();
    validate_agent_attempt_delivery_idempotency_key(&format!("loomex-agent-delivery-v2:{hex}"))
        .unwrap();
    validate_agent_payload_digest(&format!("sha256:{hex}")).unwrap();

    assert_eq!(
        validate_agent_attempt_task_idempotency_key(&format!("loomex-agent-delivery-v2:{hex}")),
        Err(AgentDigestIdentifierValidationError::WrongPrefix)
    );
    assert_eq!(
        validate_agent_payload_digest(&format!("sha256:{}", hex.to_uppercase())),
        Err(AgentDigestIdentifierValidationError::InvalidSha256Hex)
    );
    assert_eq!(
        validate_agent_payload_digest(&format!("sha256:{}", &hex[..63])),
        Err(AgentDigestIdentifierValidationError::InvalidSha256Hex)
    );
    assert_eq!(
        validate_agent_payload_digest("sha25"),
        Err(AgentDigestIdentifierValidationError::WrongPrefix)
    );
}

#[test]
fn attempt_preimages_separate_domains_with_nul_bytes() {
    assert_eq!(
        agent_attempt_task_idempotency_preimage("execution_01", 1),
        b"loomex.agent-attempt/v2\x00execution_01\x001".to_vec()
    );
    assert_eq!(
        agent_attempt_delivery_idempotency_preimage("execution_01", 2),
        b"loomex.agent-delivery/v2\x00execution_01\x002".to_vec()
    );
    assert_eq!(
        agent_attempt_task_idempotency_preimage("e", 4294967295),
        b"loomex.agent-attempt/v2\x00e\x004294967295".to_vec()
    );
    assert_eq!(
        agent_attempt_task_idempotency_preimage("e", 0),
        b"loomex.agent-attempt/v2\x00e\x000".to_vec()
    );
}

#[test]
fn attempt_preimage_splits_at_its_two_nul_bytes() {
    let preimage = agent_attempt_task_idempotency_preimage("execution_01", 37);
    let parts: Vec<&[u8]> = preimage.split(|b| *b == 0).collect();
    assert_eq!(
        parts,
        vec![
            b"loomex.agent-attempt/v2".as_slice(),
            b"execution_01".as_slice(),
            b"37".as_slice()
        ]
    );
    assert_ne!(
        agent_attempt_task_idempotency_preimage("execution_01", 37),
        agent_attempt_delivery_idempotency_preimage("execution_01", 37)
    );
    assert_ne!(
        agent_attempt_task_idempotency_preimage("execution_0", 137),
        agent_attempt_task_idempotency_preimage("execution_01", 37)
    );
}
