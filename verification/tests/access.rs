//! Who gets in: origins, credentials, rate limits, and the order of the gates.
use qcg_server::auth::{
    authenticate_challenge, authorization_callback, connected_page, constant_time_digest_eq,
    generator_asset, loopback_oauth_origins, oauth_callback_url, oauth_origin, presented_bearer,
    require_api_auth, require_local_oauth_origin, returned_url, security_headers,
};
use qcg_server::cors::parse_cors_origins;
use qcg_server::environment::Variable;
use qcg_server::digest::sha256_bytes;
use qcg_server::gate::{pass_gates, Incoming, Passage};
use qcg_server::rate_limit::{
    constant_time_eq, parse_positive, resolve_rate_limit_policy, retry_after_seconds,
    RateLimitPolicy, RateLimiter, MAX_TRACKED_BUCKETS,
};

const SECOND: u64 = 1_000_000_000;

fn origins(list: &[&str]) -> Vec<String> {
    list.iter().map(|origin| origin.to_string()).collect()
}

fn limiter(rps: u32, burst: u32, expected: Option<[u8; 32]>) -> RateLimiter {
    RateLimiter::with_expected_digest(
        RateLimitPolicy { rps, burst, trusted_identity_header: None },
        expected,
    )
}

#[test]
fn enabled_cors_accepts_configured_origins() {
    let validated = parse_cors_origins(&origins(&["https://example.com"]), true)
        .expect("test origin should parse");
    assert_eq!(validated, vec!["https://example.com".to_string()]);
}

#[test]
fn cors_rejects_path_query_and_non_http_origins() {
    for bad in [
        "https://example.com/evil",
        "https://example.com?q=1",
        "https://example.com#x",
        "ftp://example.com",
        "example.com",
        "https://",
        "https://evil@example.com",
        "https://example.com:abc",
        "https://[::1",
        "HTTPS://EXAMPLE.COM/EVIL",
    ] {
        assert!(parse_cors_origins(&origins(&[bad]), true).is_err(), "must reject {bad}");
    }
    assert!(
        parse_cors_origins(&origins(&["https://example.com:8080"]), false)
            .expect_err("origins must be refused without the server-cors feature")
            .contains("server-cors"),
        "refusal must name the disabled feature"
    );
    assert!(parse_cors_origins(&origins(&["https://example.com:8080"]), true).is_ok());
    assert!(parse_cors_origins(&origins(&["HTTPS://EXAMPLE.COM"]), true).is_ok());
    assert_eq!(
        parse_cors_origins(&origins(&["https://example.com", "https://example.com"]), true)
            .expect("duplicates should collapse")
            .len(),
        1
    );
    assert_eq!(
        parse_cors_origins(
            &origins(&["HTTPS://EXAMPLE.COM", "https://example.com", "https://example.com:8080"]),
            true
        )
        .expect("case-duplicates should collapse")
        .len(),
        2
    );
}

#[test]
fn disabled_cors_rejects_configured_origins_explicitly() {
    let error = parse_cors_origins(&origins(&["https://example.com"]), false)
        .expect_err("configured origins without the feature must fail");
    assert!(error.contains("server-cors"), "{error}");
    assert_eq!(parse_cors_origins(&Vec::new(), false), Ok(Vec::new()));
}

#[test]
fn invalid_cors_origin_refuses_router_before_recovery() {
    let error = parse_cors_origins(&origins(&["not a valid origin \n"]), true)
        .expect_err("an unparseable origin must refuse the router");
    assert!(
        error.contains("CORS") || error.contains("origin"),
        "the router failure must name its cause: {error}"
    );
}

#[test]
fn origins_are_judged_part_by_part() {
    let refusal = |origin: &str| {
        parse_cors_origins(&origins(&[origin]), true).expect_err("must be refused")
    };
    assert_eq!(
        refusal("https://a@b"),
        "invalid CORS origin `https://a@b`: userinfo is not allowed"
    );
    assert_eq!(
        refusal("http://"),
        "invalid CORS origin `http://`: must be scheme + host[:port] without path"
    );
    assert_eq!(
        refusal("http://[::1"),
        "invalid CORS origin `http://[::1`: malformed IPv6 literal"
    );
    assert_eq!(refusal("http://h:"), "invalid CORS origin `http://h:`: port must be numeric");
    assert_eq!(
        refusal("http://h\u{7}"),
        "invalid CORS origin `http://h\u{7}`: failed to parse header value"
    );
    for origin in [
        "https://:8080",
        "https://:",
        "https://[]",
        "https://[]:8080",
        "https://[::1]x",
        "https://[::1]80",
        "https://a:b:80",
        "https://a:80:",
        "https://a]:80",
        "https://a[::1]",
    ] {
        assert_eq!(
            refusal(origin),
            format!("invalid CORS origin `{origin}`: must be scheme + host[:port] without path")
        );
    }
    assert_eq!(
        refusal("https://[::1]:"),
        "invalid CORS origin `https://[::1]:`: port must be numeric"
    );
    assert_eq!(
        refusal("https://[::1]:80:90"),
        "invalid CORS origin `https://[::1]:80:90`: port must be numeric"
    );
    assert_eq!(
        parse_cors_origins(&origins(&["https://[::1]"]), true),
        Ok(origins(&["https://[::1]"]))
    );
    assert_eq!(
        parse_cors_origins(&origins(&["http://[::1]:8080", "HTTP://Host"]), true),
        Ok(origins(&["http://[::1]:8080", "http://host"]))
    );
}

#[test]
fn oauth_accepts_only_loopback_aliases_on_the_bound_port() {
    let origins = loopback_oauth_origins("127.0.0.1:43123", 43123, true);
    assert!(origins.contains(&"http://127.0.0.1:43123".to_string()));
    assert!(origins.contains(&"http://localhost:43123".to_string()));
    assert!(origins.contains(&"http://[::1]:43123".to_string()));
    assert!(!origins.contains(&"http://localhost:43124".to_string()));
    let remote = loopback_oauth_origins("192.0.2.1:43123", 43123, false);
    assert!(remote.is_empty());
}

#[test]
fn oauth_requests_must_come_from_the_listener_itself() {
    let allowed = loopback_oauth_origins("127.0.0.1:1", 1, true);
    let own = Some("http://127.0.0.1:1".to_string());
    let refused = |own: &Option<String>, allowed: &Vec<String>, origin: Option<&[u8]>| {
        require_local_oauth_origin(own, allowed, origin).expect_err("refused").problem.detail
    };
    assert_eq!(
        refused(&None, &allowed, None),
        "MCP OAuth is available only on a loopback listener"
    );
    assert_eq!(refused(&own, &Vec::new(), None), "MCP OAuth has no allowed loopback origins");
    assert_eq!(refused(&own, &allowed, Some(&[0xff])), "request Origin is invalid");
    assert_eq!(
        refused(&own, &allowed, Some(b"http://evil")),
        "cross-origin MCP authorization is not allowed"
    );
    assert!(require_local_oauth_origin(&own, &allowed, None).is_ok());
    assert!(require_local_oauth_origin(&own, &allowed, Some(b"http://localhost:1")).is_ok());
}

#[test]
fn oauth_urls_hang_off_the_listener() {
    let origin = oauth_origin("127.0.0.1:9", true);
    assert_eq!(origin.as_deref(), Some("http://127.0.0.1:9"));
    assert_eq!(oauth_origin("192.0.2.1:9", false), None);
    let callback = oauth_callback_url(&origin);
    assert_eq!(callback.as_deref(), Some("http://127.0.0.1:9/api/mcp/oauth/callback"));
    assert_eq!(
        authorization_callback(&callback).expect("available"),
        "http://127.0.0.1:9/api/mcp/oauth/callback"
    );
    assert_eq!(authorization_callback(&None).expect_err("remote").problem.status, 403);
    assert_eq!(
        returned_url(&origin, "/api/mcp/oauth/callback?code=1").expect("available"),
        "http://127.0.0.1:9/api/mcp/oauth/callback?code=1"
    );
    assert_eq!(returned_url(&None, "/x").expect_err("remote").problem.status, 403);
    assert_eq!(
        connected_page("s"),
        "<!doctype html><meta charset=\"utf-8\"><title>MCP connected</title><p>MCP server <code>s</code> is connected. You can close this window.</p>"
    );
}

#[test]
fn bearer_digest_comparison_rejects_any_difference() {
    let expected = sha256_bytes("correct-token");
    assert!(constant_time_digest_eq(&expected, &sha256_bytes("correct-token")));
    assert!(!constant_time_digest_eq(&expected, &sha256_bytes("wrong-token")));
    assert!(constant_time_eq(&expected, &expected));
    let mut near = expected;
    near[31] ^= 1;
    assert!(!constant_time_eq(&expected, &near));
}

#[test]
fn credentials_open_everything_but_the_open_paths_need_none() {
    let expected = Some(sha256_bytes("secret"));
    assert!(require_api_auth(&None, false, "/api/runs", None).is_ok());
    let refusal = require_api_auth(&expected, true, "/api/runs", None).expect_err("no credential");
    assert_eq!(refusal.problem.status, 401);
    assert_eq!(refusal.problem.detail, "valid bearer token required");
    assert_eq!(refusal.problem.problem_type, "https://qcg.dev/problems/unauthorized");
    for bad in [&b"Bearer wrong"[..], b"bearer secret", b"Bearer  secret", b"secret", &[0xff]] {
        assert!(require_api_auth(&expected, true, "/api/runs", Some(bad)).is_err());
    }
    assert!(require_api_auth(&expected, false, "/api/runs", Some(b"Bearer secret")).is_ok());
    for open in ["/healthz", "/api/openapi.json", "/api/mcp/oauth/callback"] {
        assert!(require_api_auth(&expected, false, open, None).is_ok(), "{open}");
    }
    let asset = "/api/generators/g/assets/app.js";
    assert!(generator_asset(asset));
    assert!(require_api_auth(&expected, true, asset, None).is_ok());
    assert!(require_api_auth(&expected, false, asset, None).is_err(), "only reads are open");
    assert_eq!(authenticate_challenge(), "Bearer realm=\"qcg\"");
    assert_eq!(presented_bearer(Some(b"Bearer t")), Some("t".to_string()));
    assert_eq!(presented_bearer(None), None);
}

#[test]
fn security_headers_depend_on_the_path() {
    let plain = security_headers("/api/runs");
    assert_eq!(plain[0], ("content-security-policy", "default-src 'none'; frame-ancestors 'none'"));
    assert_eq!(plain[1], ("x-content-type-options", "nosniff"));
    assert_eq!(plain[2], ("x-frame-options", "DENY"));
    assert_eq!(plain[3], ("referrer-policy", "no-referrer"));
    let asset = security_headers("/api/generators/g/assets/a");
    assert!(asset[0].1.contains("script-src 'self' 'wasm-unsafe-eval'"));
}

#[test]
fn bucket_admits_the_burst_then_recovers_with_time() {
    let mut limiter = limiter(2, 3, None);
    let start = 10 * SECOND;
    for _ in 0..3 {
        limiter.try_acquire(None, start).expect("the burst must be admitted");
    }
    let wait = limiter.try_acquire(None, start).expect_err("the burst must be exhausted");
    assert!(wait > 0, "a denial must report a retry delay");
    assert_eq!(wait, SECOND / 2);
    // At 2 rps, 500 ms refill exactly one token.
    limiter
        .try_acquire(None, start + SECOND / 2)
        .expect("elapsed time must refill one token");
    limiter
        .try_acquire(None, start + SECOND / 2)
        .expect_err("only one token was refilled");
    limiter
        .try_acquire(None, start + 60 * SECOND)
        .expect("an idle bucket must refill one token");
    for _ in 0..2 {
        limiter.try_acquire(None, start + 60 * SECOND).expect("up to the burst");
    }
    assert!(
        limiter.try_acquire(None, start + 60 * SECOND).is_err(),
        "idle time refills no further than the burst"
    );
}

#[test]
fn no_spacing_of_requests_beats_the_limit() {
    for spacing in [1_000_000, 7_000_000, 250_000_000] {
        let mut limiter = limiter(2, 3, None);
        let mut admitted = 0;
        let mut now = SECOND;
        while now <= 6 * SECOND {
            if limiter.try_acquire(None, now).is_ok() {
                admitted += 1;
            }
            now += spacing;
        }
        assert!(admitted <= 3 + 2 * 5, "five seconds pay for ten requests beyond the burst");
        assert!(admitted >= 12, "what is paid for is admitted, got {admitted}");
    }
}

#[test]
fn interleaved_identities_keep_their_own_limits() {
    let alice = Some(sha256_bytes("alice"));
    let bob = Some(sha256_bytes("bob"));
    // What alice is answered alone.
    let instants = [0, 1, 2, 500_000_000, SECOND, SECOND + 1, 3 * SECOND, 3 * SECOND];
    let mut alone = limiter(1, 2, None);
    let expected: Vec<Result<(), u64>> =
        instants.iter().map(|now| alone.try_acquire(alice, *now)).collect();
    assert_eq!(
        expected,
        vec![
            Ok(()),
            Ok(()),
            Err(999_999_998),
            Err(500_000_000),
            Ok(()),
            Err(999_999_999),
            Ok(()),
            Ok(()),
        ]
    );
    // The same with others in between.
    let mut shared = limiter(1, 2, None);
    for (now, answer) in instants.iter().zip(&expected) {
        for _ in 0..3 {
            let _ = shared.try_acquire(bob, *now);
            let _ = shared.try_acquire(None, *now);
        }
        assert_eq!(shared.try_acquire(alice, *now), *answer);
    }
    // Within three seconds that is the burst and what the rate earns.
    let admitted = expected.iter().filter(|answer| answer.is_ok()).count();
    assert_eq!(admitted, 2 + 3);
    for answer in &expected {
        if let Err(wait) = answer {
            assert!(*wait <= SECOND, "one token takes a second at this rate");
        }
    }
}

#[test]
fn verified_identity_is_isolated_but_unverified_shares_anonymous() {
    let expected = sha256_bytes("valid-token");
    let mut guarded = limiter(1, 1, Some(expected));
    let now = SECOND;
    guarded.try_acquire(Some(expected), now).expect("verified identity is admitted");
    assert!(guarded.try_acquire(Some(expected), now).is_err());
    guarded.try_acquire(None, now).expect("anonymous gets its own bucket");
    assert!(guarded.try_acquire(None, now).is_err(), "anonymous must be exhausted");
    let open = limiter(1, 1, None);
    for fake in ["fake-1", "fake-2", "fake-3"] {
        assert_eq!(
            open.rate_key(None, Some(format!("Bearer {fake}").as_bytes())),
            None,
            "unverified bearer must share the anonymous bucket"
        );
    }
    assert_eq!(
        guarded.rate_key(None, Some(b"Bearer valid-token")),
        Some(expected),
        "verified bearer must split"
    );
    assert_eq!(
        guarded.rate_key(None, Some(b"Bearer forged-token")),
        None,
        "forged bearer must share the anonymous bucket"
    );
}

#[test]
fn retry_after_rounds_up_to_whole_seconds() {
    assert_eq!(retry_after_seconds(1_000_000), 1);
    assert_eq!(retry_after_seconds(1_500_000_000), 2);
    assert_eq!(retry_after_seconds(3 * SECOND), 3);
    assert_eq!(retry_after_seconds(0), 1);
}

#[test]
fn middleware_answers_429_with_retry_after_and_exempts_healthz() {
    let mut limiter = limiter(1, 1, None);
    for _ in 0..5 {
        assert!(
            limiter.enforce_rate_limit("/healthz", None, None, SECOND).is_ok(),
            "health checks must never consume rate limit budget"
        );
    }
    assert!(limiter.enforce_rate_limit("/work", None, None, SECOND).is_ok());
    let throttled = limiter
        .enforce_rate_limit("/work", None, None, SECOND)
        .expect_err("second work request should be refused");
    assert_eq!(throttled.refusal.problem.status, 429);
    assert_eq!(throttled.refusal.problem.detail, "request rate limit exceeded");
    assert_eq!(throttled.retry_after, 1, "a 429 must carry an integer Retry-After");
}

#[test]
fn rotating_fake_bearers_share_the_anonymous_budget() {
    let mut limiter = limiter(1, 1, None);
    let mut attempt = |token: &str| {
        limiter.enforce_rate_limit("/work", None, Some(format!("Bearer {token}").as_bytes()), SECOND)
    };
    assert!(attempt("fake-1").is_ok());
    for fake in ["fake-2", "fake-3", "fake-4"] {
        assert!(
            attempt(fake).is_err(),
            "a rotated fake bearer must share the exhausted anonymous bucket"
        );
    }
}

#[test]
fn verified_identity_keeps_its_own_bucket() {
    let expected = sha256_bytes("valid-token");
    let mut limiter = limiter(1, 1, Some(expected));
    let mut attempt = |token: &str| {
        limiter.enforce_rate_limit("/work", None, Some(format!("Bearer {token}").as_bytes()), SECOND)
    };
    assert!(attempt("forged").is_ok());
    assert!(attempt("forged-2").is_err(), "forgeries share the anonymous bucket");
    assert!(attempt("valid-token").is_ok(), "verified identity must split from anonymous traffic");
    assert!(attempt("valid-token").is_err(), "the verified bucket enforces its own burst");
}

#[test]
fn overflow_identities_fold_into_anonymous_without_refill() {
    let mut limiter = limiter(1, 1, None);
    let now = SECOND;
    for i in 0..MAX_TRACKED_BUCKETS {
        let key = Some(sha256_bytes(&format!("user-{i}")));
        limiter.try_acquire(key, now).expect("fresh bucket admits");
        assert!(limiter.try_acquire(key, now).is_err(), "each bucket must be exhausted");
    }
    assert_eq!(limiter.bucket_count(), MAX_TRACKED_BUCKETS, "memory must stay bounded");
    let _ = limiter.try_acquire(Some(sha256_bytes("brand-new-user")), now);
    assert!(
        limiter.try_acquire(Some(sha256_bytes("user-0")), now).is_err(),
        "no exhausted bucket may be evicted into a refill"
    );
    assert!(limiter.bucket_count() <= MAX_TRACKED_BUCKETS + 1, "memory must stay bounded");
}

#[test]
fn trusted_identities_come_from_the_configured_header_only() {
    let text = |value: &str| Variable::Text(value.to_string());
    let policy = resolve_rate_limit_policy(&text("1"), &Variable::Unset, &text(" X-User "))
    .expect("resolves")
    .expect("a limit");
    assert_eq!(policy.trusted_identity_header.as_deref(), Some("x-user"));
    let limiter = RateLimiter::with_expected_digest(policy, None);
    assert_eq!(limiter.trusted_identity_header().as_deref(), Some("x-user"));
    assert_eq!(limiter.rate_key(Some(b" alice "), None), Some(sha256_bytes("alice")));
    assert_eq!(limiter.rate_key(Some(b"  "), None), None);
    for bad in ["", "authorization", "Authorization", "a b", "a:b"] {
        assert!(resolve_rate_limit_policy(&text("1"), &Variable::Unset, &text(bad)).is_err());
    }
    assert_eq!(parse_positive("N", "4294967295"), Ok(u32::MAX));
    assert_eq!(
        parse_positive("N", "4294967296"),
        Err("invalid N `4294967296`: must be an integer of at least 1".to_string())
    );
}

fn incoming<'a>(method: &'a str, path: &'a str, authorization: Option<&'a [u8]>) -> Incoming<'a> {
    Incoming { method, path, authorization, trusted: None, asset_is_safe: true }
}

#[test]
fn shutdown_gate_precedes_authentication() {
    let expected = Some(sha256_bytes("secret"));
    for credential in [None, Some(&b"Bearer wrong"[..])] {
        match pass_gates(true, &mut None, 0, &expected, &incoming("POST", "/api/runs", credential)) {
            Passage::Draining(refusal) => {
                assert_eq!(refusal.problem.status, 503);
                assert_eq!(refusal.problem.detail, "server is shutting down");
            }
            other => panic!("a mutating request during drain must be 503, not {other:?}"),
        }
    }
}

#[test]
fn shutdown_gate_covers_the_full_mutating_set() {
    for (method, uri) in [
        ("POST", "/api/runs"),
        ("POST", "/api/runs/x/fork"),
        ("PUT", "/api/runs/x/questions/q"),
        ("PUT", "/api/runs/x/confirmations/c"),
        ("POST", "/api/runs/x:cancel"),
        ("DELETE", "/api/runs/x"),
        ("PATCH", "/api/runs/x"),
    ] {
        assert!(
            matches!(
                pass_gates(true, &mut None, 0, &None, &incoming(method, uri, None)),
                Passage::Draining(_)
            ),
            "{method} {uri} must 503 during drain"
        );
    }
    assert!(matches!(
        pass_gates(true, &mut None, 0, &None, &incoming("GET", "/api/runs", None)),
        Passage::Open
    ));
}

#[test]
fn rate_limit_answers_429_only_inside_the_shutdown_gate() {
    let mut limited = Some(limiter(1, 1, None));
    let post = incoming("POST", "/api/runs", None);
    assert!(matches!(pass_gates(false, &mut limited, SECOND, &None, &post), Passage::Open));
    assert!(matches!(pass_gates(false, &mut limited, SECOND, &None, &post), Passage::Throttled(_)));
    assert!(
        matches!(pass_gates(true, &mut limited, SECOND, &None, &post), Passage::Draining(_)),
        "draining answers before the limiter"
    );
}

#[test]
fn rate_limit_covers_unauthenticated_requests() {
    let mut limited = Some(limiter(1, 1, None));
    let expected = Some(sha256_bytes("secret"));
    let get = incoming("GET", "/api/runs", Some(b"Bearer wrong"));
    assert!(matches!(
        pass_gates(false, &mut limited, SECOND, &expected, &get),
        Passage::Unauthorized(_)
    ));
    assert!(matches!(
        pass_gates(false, &mut limited, SECOND, &expected, &get),
        Passage::Throttled(_)
    ));
}

#[test]
fn generator_assets_are_readable_without_a_token() {
    let expected = Some(sha256_bytes("secret"));
    let asset = "/api/generators/g/assets/app.js";
    assert!(matches!(
        pass_gates(false, &mut None, 0, &expected, &incoming("GET", asset, None)),
        Passage::Open
    ));
    assert!(matches!(
        pass_gates(false, &mut None, 0, &expected, &incoming("GET", "/api/runs", None)),
        Passage::Unauthorized(_)
    ));
    assert!(matches!(
        pass_gates(false, &mut None, 0, &expected, &incoming("GET", "/api/runs", Some(b"Bearer secret"))),
        Passage::Open
    ));
    let mut unsafe_asset = incoming("GET", asset, None);
    unsafe_asset.asset_is_safe = false;
    assert!(matches!(
        pass_gates(false, &mut None, 0, &expected, &unsafe_asset),
        Passage::UnsafePath(_)
    ));
}
