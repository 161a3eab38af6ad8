use orbflow::error::OrbflowError;
use orbflow::http::{header_str, ErrorReply, Header, ReplyShape};
use orbflow::json::write_json;
use orbflow::middleware::{
    auth_middleware, check_permission, error_envelope_middleware, error_message_from_body,
    forbidden_response, has_permission, insert_user_identity, is_error_envelope, AuthDecision,
    AuthUser, EnvelopeOutcome, PolicyRead, UserKeyExtractor, PUBLIC_PATHS,
};
use orbflow::ratelimit::{
    check_start_rate_limit, read_rate_limiter, sensitive_rate_limiter, within, write_rate_limiter,
    StartRateLimiter, EVICTION_THRESHOLD,
};

const SECOND: u64 = 1_000_000_000;

fn header(name: &str, value: &[u8]) -> Header {
    Header {
        name: name.to_owned(),
        value: value.to_vec(),
    }
}

#[test]
fn only_error_statuses_are_normalized() {
    assert!(matches!(
        error_envelope_middleware(200, Some(b"x"), &vec![]),
        EnvelopeOutcome::Keep
    ));
    assert!(matches!(
        error_envelope_middleware(399, None, &vec![]),
        EnvelopeOutcome::Keep
    ));
    assert!(matches!(
        error_envelope_middleware(404, Some(br#"{"data":null,"error":"e"}"#), &vec![]),
        EnvelopeOutcome::Keep
    ));
}

#[test]
fn replaced_bodies_keep_the_other_headers() {
    let headers = vec![
        header("content-type", b"text/plain"),
        header("x-a", b"1"),
        header("content-length", b"4"),
        header("x-a", b"2"),
    ];
    match error_envelope_middleware(404, Some(b" gone \n"), &headers) {
        EnvelopeOutcome::Replace { reply, headers } => {
            assert_eq!((reply.status, reply.shape), (404, ReplyShape::Envelope));
            assert_eq!(reply.error, "gone");
            assert_eq!(headers.len(), 1);
            assert_eq!(headers[0].name, "x-a");
            assert_eq!(headers[0].value, b"2");
        }
        other => panic!("expected a replacement, got {other:?}"),
    }
    match error_envelope_middleware(503, None, &headers) {
        EnvelopeOutcome::Replace { reply, headers } => {
            assert_eq!(reply.error, "service unavailable");
            assert!(headers.is_empty());
        }
        other => panic!("expected a replacement, got {other:?}"),
    }
}

#[test]
fn messages_come_from_the_best_source() {
    assert_eq!(error_message_from_body(413, b"x"), "request body too large");
    assert_eq!(error_message_from_body(400, br#"{"error":"  bad  "}"#), "bad");
    assert_eq!(error_message_from_body(400, br#"{"error":" "}"#), r#"{"error":" "}"#);
    assert_eq!(error_message_from_body(400, b"  plain "), "plain");
    assert_eq!(error_message_from_body(400, b"a\xffb"), "a\u{fffd}b");
    assert_eq!(error_message_from_body(404, b""), "not found");
    assert_eq!(error_message_from_body(499, b" "), "request failed");
}

#[test]
fn envelopes_have_data_and_error() {
    assert!(is_error_envelope(br#"{"error":1,"data":2}"#));
    assert!(!is_error_envelope(br#"{"error":1}"#));
    assert!(!is_error_envelope(br#"["data","error"]"#));
    assert!(!is_error_envelope(b"data error"));
    assert!(is_error_envelope(br#"{"data":null,"error":"Forbidden: insufficient permissions"}"#));
}

#[test]
fn tokens_guard_all_but_the_public_paths() {
    let auth = |path: &str, authorization: Option<&[u8]>| {
        auth_middleware(path, authorization, Some(b"alice"), Some("t0ken"), true)
    };
    match auth("/api/v1/workflows", Some(b"Bearer t0ken")) {
        AuthDecision::Proceed(user) => assert_eq!(user.user_id, "alice"),
        other => panic!("expected to proceed, got {other:?}"),
    }
    for wrong in [&b"Bearer t0ke"[..], b"bearer t0ken", b"t0ken", b"Bearer t0ken\xff"] {
        match auth("/api/v1/workflows", Some(wrong)) {
            AuthDecision::Reject(reply) => {
                assert_eq!(reply.status, 401);
                assert_eq!(reply.shape, ReplyShape::Envelope);
                assert_eq!(reply.error, "unauthorized");
            }
            other => panic!("expected a refusal, got {other:?}"),
        }
    }
    assert!(matches!(auth("/webhooks/wf", None), AuthDecision::Reject(_)));
    for path in PUBLIC_PATHS {
        assert!(matches!(auth(path, None), AuthDecision::ProceedUnidentified));
        assert!(matches!(
            auth(path, Some(b"Bearer wrong")),
            AuthDecision::ProceedUnidentified
        ));
        assert!(matches!(
            auth(path, Some(b"Bearer t0ken")),
            AuthDecision::Proceed(user) if user.user_id == "alice"
        ));
    }
    match auth_middleware("/x", None, Some(b"bob"), None, true) {
        AuthDecision::Proceed(user) => assert_eq!(user.user_id, "bob"),
        other => panic!("expected to proceed, got {other:?}"),
    }
}

#[test]
fn error_replies_are_json_objects() {
    let written = |reply: &ErrorReply| String::from_utf8(write_json(&reply.to_json()).unwrap());
    let reply = forbidden_response();
    assert_eq!(
        written(&reply).unwrap(),
        r#"{"data":null,"error":"Forbidden: insufficient permissions"}"#
    );
    let bare = ErrorReply {
        status: 429,
        shape: ReplyShape::ErrorOnly,
        error: "slow\ndown".into(),
    };
    assert_eq!(written(&bare).unwrap(), r#"{"error":"slow\ndown"}"#);
}

#[test]
fn identities_are_well_formed() {
    let id = |value: Option<&[u8]>, trust: bool| insert_user_identity(value, trust).user_id;
    assert_eq!(id(Some(b"a-b_c.9"), true), "a-b_c.9");
    assert_eq!(id(Some(b"a-b_c.9"), false), "anonymous");
    assert_eq!(id(Some(b"a b"), true), "anonymous");
    assert_eq!(id(Some(b""), true), "anonymous");
    assert_eq!(id(Some(&[b'x'; 128]), true), "x".repeat(128));
    assert_eq!(id(Some(&[b'x'; 129]), true), "anonymous");
    assert_eq!(id(None, true), "anonymous");
    assert_eq!(header_str(b"a\tb").as_deref(), Some("a\tb"));
    assert_eq!(header_str(b"a\x7f"), None);
}

#[test]
fn rate_limits_count_users() {
    let user = AuthUser {
        user_id: "alice".to_owned(),
    };
    let extractor = UserKeyExtractor;
    assert_eq!(extractor.extract(Some(&user)), "alice");
    assert_eq!(extractor.extract(None), "anonymous");
    assert_eq!(extractor.name(), "UserKeyExtractor");
    assert_eq!(extractor.key_name("k").as_deref(), Some("k"));
}

#[test]
fn permissions_follow_the_policy() {
    let has = |p: PolicyRead, admin: Option<&str>| has_permission(&p, "u", admin);
    assert!(has(PolicyRead::Disabled, None).unwrap());
    assert!(has(PolicyRead::Empty, Some("u")).unwrap());
    assert!(!has(PolicyRead::Empty, Some("v")).unwrap());
    assert!(!has(PolicyRead::Empty, None).unwrap());
    assert!(has(PolicyRead::Bound { granted: true }, None).unwrap());
    assert!(!has(PolicyRead::Bound { granted: false }, Some("u")).unwrap());
    let broken = has(PolicyRead::Unreadable, None).unwrap_err();
    assert_eq!((broken.status, broken.error.as_str()), (500, "Internal server error"));
    assert!(check_permission(&PolicyRead::Disabled, "u", None).is_ok());
    let refused = check_permission(&PolicyRead::Empty, "u", None).unwrap_err();
    assert_eq!(refused.status, 403);
    assert_eq!(refused.error, forbidden_response().error);
    assert_eq!(
        check_permission(&PolicyRead::Unreadable, "u", None)
            .unwrap_err()
            .status,
        500
    );
}

#[test]
fn limiters_refuse_zero_settings() {
    let layer = read_rate_limiter(300, 200).unwrap();
    assert_eq!((layer.period_nanos, layer.burst), (300_000_000, 200));
    let error = |r: Result<_, OrbflowError>| match r {
        Err(OrbflowError::Internal(e)) => e,
        other => panic!("expected an error, got {other:?}"),
    };
    assert_eq!(error(read_rate_limiter(0, 1)), "invalid read rate limiter config");
    assert_eq!(error(write_rate_limiter(1, 0)), "invalid write rate limiter config");
    assert_eq!(
        error(sensitive_rate_limiter(0, 1)),
        "invalid sensitive rate limiter config"
    );
    assert!(write_rate_limiter(600, 100).is_ok());
    // Two requests a second are half a second apart.
    let layer = sensitive_rate_limiter(2, 30).unwrap();
    assert_eq!((layer.period_nanos, layer.burst), (SECOND / 2, 30));
    assert!(sensitive_rate_limiter(SECOND + 1, 30).is_err());
}

#[test]
fn a_workflow_starts_once_a_window() {
    let mut limiter = StartRateLimiter::new();
    assert!(limiter.check("wf", 10 * SECOND).is_ok());
    let refused = limiter.check("wf", 12 * SECOND - 1).unwrap_err();
    assert_eq!(refused.status, 429);
    assert_eq!(refused.shape, ReplyShape::ErrorOnly);
    assert_eq!(
        refused.error,
        "rate limit: workflow was started recently, please wait"
    );
    let mut copied = limiter.clone();
    assert!(copied.check("wf", 11 * SECOND).is_err());
    assert!(copied.check("other", 11 * SECOND).is_ok());
    assert!(limiter.check("other", 11 * SECOND).is_ok());
    assert!(limiter.check("wf", 12 * SECOND).is_ok());
    assert!(check_start_rate_limit(&mut limiter, "wf", 13 * SECOND).is_err());
    assert!(check_start_rate_limit(&mut limiter, "wf", 14 * SECOND).is_ok());
    assert!(within(5, 9, 1) && !within(5, 4, 1));
}

#[test]
fn eviction_changes_no_decision() {
    let mut limiter = StartRateLimiter::default();
    for i in 0..=EVICTION_THRESHOLD {
        assert!(limiter.check(&format!("old-{i}"), SECOND).is_ok());
    }
    assert!(limiter.check("recent", 4 * SECOND).is_ok());
    // By now the old records are stale and the recent one is not.
    assert!(limiter.check("recent", 5 * SECOND).is_err());
    assert!(limiter.check("old-0", 5 * SECOND).is_ok());
    assert!(limiter.check("old-0", 6 * SECOND).is_err());
}
