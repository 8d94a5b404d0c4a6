use http::{HeaderMap, HeaderValue};
use lore_core::server::build_guard::{
    build_sha_from_user_agent, decide, deny_headers, evaluate, user_agent, user_agent_requests_override,
    Admission, BuildGuardConfig, BuildGuardLayer, Verdict, CONTENT_TYPE_HEADER,
    GRPC_MESSAGE_HEADER, GRPC_STATUS_HEADER,
};
use lore_core::version::lore_build_sha_short;
use tonic::Code;

const LORE_BUILD_SHA: &str = "4f2c9a71be03d5586a7e9c1d20b34f5a6c7d8e90";

fn ua_for(sha: &str) -> String {
    format!("lore-transport/0.8.6-nightly+0 build/{sha}")
}

#[test]
fn matching_build_is_allowed() {
    let ua = ua_for(&lore_build_sha_short(LORE_BUILD_SHA));
    assert_eq!(
        evaluate(&BuildGuardConfig::default(), LORE_BUILD_SHA, Some(&ua)),
        Verdict::Allow
    );
}

#[test]
fn mismatched_build_is_denied_with_both_sides_named() {
    let ua = ua_for("000000000000");
    let decided = evaluate(&BuildGuardConfig::default(), LORE_BUILD_SHA, Some(&ua));
    let Verdict::Deny { message } = decided else {
        panic!("expected denial, got {decided:?}");
    };
    assert!(message.contains("000000000000"), "{message}");
    assert!(
        message.contains(lore_build_sha_short(LORE_BUILD_SHA).as_str()),
        "{message}"
    );
    assert!(message.contains("LORE_ALLOW_BUILD_MISMATCH"), "{message}");
}

#[test]
fn a_client_advertising_no_build_is_denied() {
    let decided = evaluate(
        &BuildGuardConfig::default(),
        LORE_BUILD_SHA,
        Some("lore-transport/0.8.6-nightly+0"),
    );
    assert!(matches!(decided, Verdict::Deny { .. }), "{decided:?}");
    assert!(matches!(
        evaluate(&BuildGuardConfig::default(), LORE_BUILD_SHA, None),
        Verdict::Deny { .. }
    ));
}

#[test]
fn client_override_is_honoured_when_the_server_permits_it() {
    let ua = format!("{} build-override/1", ua_for("000000000000"));
    assert_eq!(
        evaluate(&BuildGuardConfig::default(), LORE_BUILD_SHA, Some(&ua)),
        Verdict::AllowOverridden {
            client: "000000000000".to_string()
        }
    );
}

#[test]
fn client_override_is_refused_when_the_server_forbids_it() {
    let ua = format!("{} build-override/1", ua_for("000000000000"));
    let config = BuildGuardConfig {
        enforce: true,
        allow_client_override: false,
    };
    assert!(matches!(
        evaluate(&config, LORE_BUILD_SHA, Some(&ua)),
        Verdict::Deny { .. }
    ));
}

#[test]
fn enforcement_off_allows_anything() {
    let config = BuildGuardConfig {
        enforce: false,
        allow_client_override: false,
    };
    assert_eq!(
        evaluate(&config, LORE_BUILD_SHA, Some(&ua_for("000000000000"))),
        Verdict::Allow
    );
    assert_eq!(evaluate(&config, LORE_BUILD_SHA, None), Verdict::Allow);
}

#[test]
fn denial_carries_a_failed_precondition_status() {
    let headers = deny_headers("nope");
    assert_eq!(
        headers.get(GRPC_STATUS_HEADER).unwrap(),
        &HeaderValue::from(Code::FailedPrecondition as i32)
    );
    assert_eq!(headers.get(GRPC_MESSAGE_HEADER).unwrap(), "nope");
}

#[test]
fn denial_names_its_content_type_and_drops_a_message_that_is_no_header() {
    let headers = deny_headers("line\nbreak");
    assert_eq!(headers.get(CONTENT_TYPE_HEADER).unwrap(), "application/grpc");
    assert_eq!(headers.get(GRPC_STATUS_HEADER).unwrap(), "9");
    assert!(headers.get(GRPC_MESSAGE_HEADER).is_none());
    let accented = deny_headers("été");
    assert_eq!(
        accented.get(GRPC_MESSAGE_HEADER).unwrap().as_bytes(),
        "été".as_bytes()
    );
}

#[test]
fn a_server_without_a_commit_matches_nobody() {
    let config = BuildGuardConfig::default();
    let denied = Verdict::Deny {
        message: "lore build mismatch: client unknown, server unknown. Deploy matching builds, or \
                  set LORE_ALLOW_BUILD_MISMATCH=1 on the client to override."
            .to_string(),
    };
    assert_eq!(evaluate(&config, "unknown", None), denied);
    // Not even a client that could not name its own commit either.
    assert_eq!(evaluate(&config, "unknown", Some(&ua_for("unknown"))), denied);
    assert!(matches!(
        evaluate(&config, "unknown", Some(&ua_for("4f2c9a71be03"))),
        Verdict::Deny { .. }
    ));
    assert_eq!(
        evaluate(&config, "unknown", Some("lore build/abc build-override/1")),
        Verdict::AllowOverridden {
            client: "abc".to_string()
        }
    );
    let off = BuildGuardConfig {
        enforce: false,
        allow_client_override: false,
    };
    assert_eq!(evaluate(&off, "unknown", None), Verdict::Allow);
}

#[test]
fn denial_of_a_client_without_a_build_has_its_exact_form() {
    let decided = evaluate(&BuildGuardConfig::default(), LORE_BUILD_SHA, None);
    assert_eq!(
        decided,
        Verdict::Deny {
            message: "lore build mismatch: client unknown, server 4f2c9a71be03. Deploy matching \
                      builds, or set LORE_ALLOW_BUILD_MISMATCH=1 on the client to override."
                .to_string()
        }
    );
}

#[test]
fn override_without_a_build_is_named_unknown() {
    assert_eq!(
        evaluate(
            &BuildGuardConfig::default(),
            LORE_BUILD_SHA,
            Some("lore build-override/1")
        ),
        Verdict::AllowOverridden {
            client: "unknown".to_string()
        }
    );
}

#[test]
fn user_agents_are_read_token_by_token() {
    assert_eq!(
        build_sha_from_user_agent("lore/1 build/abc build/def"),
        Some("abc".to_string())
    );
    assert_eq!(build_sha_from_user_agent("lore/1 rebuild/abc"), None);
    assert_eq!(build_sha_from_user_agent("build/"), Some(String::new()));
    assert!(user_agent_requests_override("a build-override/1 b"));
    assert!(!user_agent_requests_override("a build-override/10"));
    assert!(!user_agent_requests_override(""));
}

#[test]
fn user_agent_is_taken_from_the_headers() {
    let mut headers = HeaderMap::new();
    assert_eq!(user_agent(&headers), None);
    headers.insert("user-agent", HeaderValue::from_static("lore/1"));
    assert_eq!(user_agent(&headers), Some("lore/1".to_string()));
    headers.insert(
        "user-agent",
        HeaderValue::from_bytes(&[0xe9, 0x74]).unwrap(),
    );
    assert_eq!(user_agent(&headers), None);
}

#[test]
fn guarded_service_forwards_or_refuses() {
    let service = BuildGuardLayer::new(BuildGuardConfig::default()).layer(7u32);
    assert_eq!(*service.inner(), 7);

    let mut headers = HeaderMap::new();
    let matching = ua_for("4f2c9a71be03");
    headers.insert("user-agent", HeaderValue::from_str(&matching).unwrap());
    assert!(matches!(
        service.call(LORE_BUILD_SHA, &headers),
        Admission::Forward { overridden: None }
    ));

    let overriding = format!("{} build-override/1", ua_for("000000000000"));
    headers.insert("user-agent", HeaderValue::from_str(&overriding).unwrap());
    match service.call(LORE_BUILD_SHA, &headers) {
        Admission::Forward { overridden } => {
            assert_eq!(overridden, Some("000000000000".to_string()))
        }
        Admission::Refuse { .. } => panic!("an override was asked for and is permitted"),
    }

    headers.insert("user-agent", HeaderValue::from_static("lore/1"));
    match service.call(LORE_BUILD_SHA, &headers) {
        Admission::Forward { .. } => panic!("a client without a build must be refused"),
        Admission::Refuse { message, headers } => {
            assert!(message.contains("client unknown"));
            assert_eq!(headers.get("grpc-status").unwrap(), "9");
            assert_eq!(
                headers.get("grpc-message").unwrap().to_str().unwrap(),
                message
            );
        }
    }
}

#[test]
fn builds_and_overrides_are_read_behind_any_agent() {
    for agent in ["", "lore", "lore/1 (x; y)\ttail "] {
        let named = format!("{agent} build/abc");
        assert_eq!(build_sha_from_user_agent(&named), Some("abc".to_string()));
        assert!(!user_agent_requests_override(&named));
        let asking = format!("{named} build-override/1");
        assert!(user_agent_requests_override(&asking));
        assert_eq!(build_sha_from_user_agent(&asking), Some("abc".to_string()));
    }
}

#[test]
fn decision_goes_by_what_was_read_of_the_client() {
    let enforcing = BuildGuardConfig::default();
    let short = lore_build_sha_short(LORE_BUILD_SHA);
    assert_eq!(decide(&enforcing, LORE_BUILD_SHA, Some(&short), false), Verdict::Allow);
    assert!(matches!(
        decide(&enforcing, "unknown", Some("unknown"), false),
        Verdict::Deny { .. }
    ));
    assert_eq!(
        decide(&enforcing, LORE_BUILD_SHA, None, true),
        Verdict::AllowOverridden {
            client: "unknown".to_string()
        }
    );
    assert_eq!(
        decide(&enforcing, LORE_BUILD_SHA, Some("abc"), false),
        Verdict::Deny {
            message: format!(
                "lore build mismatch: client abc, server {short}. Deploy matching builds, or set \
                 LORE_ALLOW_BUILD_MISMATCH=1 on the client to override."
            )
        }
    );
    let strict = BuildGuardConfig {
        enforce: true,
        allow_client_override: false,
    };
    assert!(matches!(
        decide(&strict, LORE_BUILD_SHA, Some("abc"), true),
        Verdict::Deny { .. }
    ));
    let off = BuildGuardConfig {
        enforce: false,
        allow_client_override: false,
    };
    assert_eq!(decide(&off, LORE_BUILD_SHA, Some("abc"), false), Verdict::Allow);
}

#[test]
fn client_of_unknown_build_is_no_match() {
    assert!(matches!(
        decide(&BuildGuardConfig::default(), LORE_BUILD_SHA, Some("unknown"), false),
        Verdict::Deny { .. }
    ));
}

#[test]
fn guarded_services_can_be_cloned() {
    let guarded = BuildGuardLayer::new(BuildGuardConfig::default()).layer(7u8);
    assert_eq!(*guarded.clone().inner(), 7);
}
