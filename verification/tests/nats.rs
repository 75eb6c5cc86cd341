use bevygap::nats::cert_digest_deployment_key;
use bevygap::nats::cert_digest_endpoint_key;
use bevygap::nats::cert_digest_lookup_keys;
use bevygap::nats::cert_digest_public_ip_key;
use bevygap::nats::deployment_metrics_key;
use bevygap::nats::matchmaker_request_subject;
use bevygap::nats::nats_bucket_name;
use bevygap::nats::nats_namespace;
use bevygap::nats::nats_stream_name;
use bevygap::nats::nats_subject_name;
use bevygap::nats::sanitize_kv_token;
use bevygap::nats_setup::ca_source;
use bevygap::nats_setup::connect_plan;
use bevygap::nats_setup::delete_session_subject_prefix;
use bevygap::nats_setup::env_duration_ms;
use bevygap::nats_setup::env_duration_secs;
use bevygap::nats_setup::kv_active_connections;
use bevygap::nats_setup::kv_c2s;
use bevygap::nats_setup::kv_cert_digests;
use bevygap::nats_setup::kv_deployment_metrics;
use bevygap::nats_setup::kv_s2c;
use bevygap::nats_setup::kv_unclaimed_sessions;
use bevygap::nats_setup::session_delete_message;
use bevygap::nats_setup::session_delete_queue;
use bevygap::nats_setup::CaSource;
use bevygap::nats_setup::ConnectRefusal;
use bevygap::nats_setup::ConnectVars;
use bevygap::nats_setup::MaxAge;
use bevygap::nats_setup::Retention;
use bevygap::flags::env_flag;

#[test]
fn cert_digest_keys_prefer_deployment_then_endpoint_then_legacy_ip() {
    assert_eq!(
        cert_digest_lookup_keys(Some("deploy-123"), "127.0.0.1", Some(7777)),
        vec![
            "deployment.deploy-123",
            "endpoint.127_0_0_1.7777",
            "ip.127_0_0_1",
            "127.0.0.1"
        ]
    );
}

#[test]
fn cert_digest_keys_work_without_deployment_id() {
    assert_eq!(
        cert_digest_lookup_keys(None, "2001:db8::1", Some(31302)),
        vec![
            "endpoint.2001_db8__1.31302",
            "ip.2001_db8__1",
            "2001:db8::1"
        ]
    );
}

#[test]
fn nats_names_are_default_compatible_without_namespace() {
    assert_eq!(nats_bucket_name(None, "sessions_ly2eg"), "sessions_ly2eg");
    assert_eq!(
        nats_stream_name(None, "DELETE_SESSION_STREAM"),
        "DELETE_SESSION_STREAM"
    );
    assert_eq!(
        matchmaker_request_subject(None, "lightrider", "dev"),
        "matchmaker.request.lightrider.dev"
    );
    assert_eq!(
        deployment_metrics_key("deploy/123"),
        "deployment.deploy_123"
    );
}

#[test]
fn nats_names_include_sanitized_namespace_when_configured() {
    let namespace = Some("lightrider/dev");

    assert_eq!(
        nats_bucket_name(namespace, "sessions_ly2eg"),
        "lightrider_dev_sessions_ly2eg"
    );
    assert_eq!(
        nats_stream_name(namespace, "DELETE_SESSION_STREAM"),
        "lightrider_dev_DELETE_SESSION_STREAM"
    );
    assert_eq!(
        matchmaker_request_subject(namespace, "light rider", "v0.0.1"),
        "lightrider_dev.matchmaker.request.light_rider.v0_0_1"
    );
}

#[test]
fn namespace_is_trimmed_and_may_be_switched_off() {
    assert_eq!(nats_namespace(None), None);
    assert_eq!(nats_namespace(Some("")), None);
    assert_eq!(nats_namespace(Some(" \t\u{3000}")), None);
    assert_eq!(nats_namespace(Some("unknown")), None);
    assert_eq!(nats_namespace(Some(" unknown ")), None);
    assert_eq!(nats_namespace(Some("Unknown")), Some("Unknown".to_string()));
    assert_eq!(nats_namespace(Some("  a.b ")), Some("a_b".to_string()));
    assert_eq!(nats_subject_name(Some(" x "), "y"), "x.y");
    assert_eq!(nats_subject_name(Some(" "), "y"), "y");
}

#[test]
fn tokens_hold_no_separators() {
    assert_eq!(sanitize_kv_token(""), "unknown");
    assert_eq!(sanitize_kv_token("a.b*c>d e"), "a_b_c_d_e");
    assert_eq!(sanitize_kv_token("Ab-9_"), "Ab-9_");
    assert_eq!(sanitize_kv_token("\u{e9}\u{1f600}"), "__");
    let once = sanitize_kv_token("x y.z");
    assert_eq!(sanitize_kv_token(&once), once);
}

#[test]
fn subjects_of_two_namespaces_are_apart_and_buckets_need_not_be() {
    assert_ne!(
        nats_subject_name(Some("a"), "b_c"),
        nats_subject_name(Some("a_b"), "c")
    );
    assert_eq!(
        nats_bucket_name(Some("a"), "b_c"),
        nats_bucket_name(Some("a_b"), "c")
    );
    assert_ne!(
        matchmaker_request_subject(None, "a", "b_c"),
        matchmaker_request_subject(None, "a_b", "c")
    );
}

#[test]
fn digest_keys_are_built_from_tokens() {
    assert_eq!(cert_digest_deployment_key("a/b"), "deployment.a_b");
    assert_eq!(cert_digest_endpoint_key("::1", 0), "endpoint.__1.0");
    assert_eq!(cert_digest_endpoint_key("h", 65535), "endpoint.h.65535");
    assert_eq!(cert_digest_public_ip_key(""), "ip.unknown");
    assert_ne!(
        cert_digest_endpoint_key("a.1", 2),
        cert_digest_endpoint_key("a", 12)
    );
    assert_ne!(
        cert_digest_endpoint_key("a", 1),
        cert_digest_endpoint_key("a", 11)
    );
}

#[test]
fn blank_deployment_ids_and_repeated_keys_are_left_out() {
    assert_eq!(
        cert_digest_lookup_keys(Some("  "), "10.0.0.1", None),
        vec!["ip.10_0_0_1", "10.0.0.1"]
    );
    assert_eq!(
        cert_digest_lookup_keys(Some("d"), "", None),
        vec!["deployment.d", "ip.unknown", ""]
    );
    assert_eq!(
        cert_digest_lookup_keys(Some("x"), "deployment.x", None),
        vec!["deployment.x", "ip.deployment_x"]
    );
}

#[test]
fn digests_are_published_under_every_key_that_is_looked_up() {
    let published = cert_digest_lookup_keys(Some("d"), "10.0.0.1", Some(7));
    for id in [Some("d"), None] {
        for port in [Some(7), None] {
            for key in cert_digest_lookup_keys(id, "10.0.0.1", port) {
                assert!(published.contains(&key));
            }
        }
    }
}

#[test]
fn flags_are_read_without_case_and_white_space() {
    for on in ["1", "true", "yes", "y", "on", " TRUE ", "\tYes\n", "On", "Y"] {
        assert!(env_flag(Some(on)), "{on:?}");
    }
    for off in ["", "0", "false", "no", "off", "t", "local", "tru e"] {
        assert!(!env_flag(Some(off)), "{off:?}");
    }
    assert!(!env_flag(None));
}

#[test]
fn durations_fall_back_to_their_defaults() {
    assert_eq!(env_duration_ms(None, 30000), MaxAge::Millis(30000));
    assert_eq!(env_duration_ms(Some(" 15 "), 30000), MaxAge::Millis(15));
    assert_eq!(env_duration_ms(Some("+7"), 30000), MaxAge::Millis(7));
    assert_eq!(env_duration_secs(Some("-7"), 30), MaxAge::Secs(30));
    assert_eq!(env_duration_secs(Some("soon"), 30), MaxAge::Secs(30));
    assert_eq!(env_duration_secs(Some(""), 30), MaxAge::Secs(30));
    assert_eq!(
        env_duration_secs(Some("18446744073709551615"), 30),
        MaxAge::Secs(u64::MAX)
    );
    assert_eq!(
        env_duration_secs(Some("18446744073709551616"), 30),
        MaxAge::Secs(30)
    );
}

#[test]
fn buckets_are_created_with_their_settings() {
    let active = kv_active_connections(None, None);
    assert_eq!(active.bucket, "active_connections");
    assert_eq!(active.description, "");
    assert_eq!(active.max_value_size, 0);
    assert_eq!(active.max_age, MaxAge::Secs(86400));

    let unclaimed = kv_unclaimed_sessions(Some("ns"), Some("9"));
    assert_eq!(unclaimed.bucket, "ns_unclaimed_sessions");
    assert_eq!(unclaimed.max_value_size, 1024);
    assert_eq!(unclaimed.max_age, MaxAge::Secs(9));
    assert_eq!(kv_unclaimed_sessions(None, None).max_age, MaxAge::Secs(180));

    let digests = kv_cert_digests(None, None);
    assert_eq!(digests.bucket, "cert_digests");
    assert_eq!(digests.max_age, MaxAge::Secs(86400 * 14));

    let metrics = kv_deployment_metrics(None, None);
    assert_eq!(metrics.bucket, "deployment_metrics");
    assert_eq!(metrics.max_value_size, 16 * 1024);
    assert_eq!(metrics.max_age, MaxAge::Secs(30));

    let s2c = kv_s2c(None, None);
    assert_eq!(s2c.bucket, "sessions_eg2ly");
    assert_eq!(
        s2c.description,
        "Maps Edgegap Session IDs to Lightyear Client IDs"
    );
    assert_eq!(s2c.max_age, MaxAge::Millis(30000));

    let c2s = kv_c2s(Some("ns"), Some("100"));
    assert_eq!(c2s.bucket, "ns_sessions_ly2eg");
    assert_eq!(c2s.max_age, MaxAge::Millis(100));
}

#[test]
fn deletions_go_to_one_token_behind_the_prefix_of_the_queue() {
    assert_eq!(delete_session_subject_prefix(None), "edgegap_delete_session_q");
    let prefix = delete_session_subject_prefix(Some("ns"));
    assert_eq!(prefix, "ns.edgegap_delete_session_q");
    let queue = session_delete_queue(Some("ns"));
    assert_eq!(queue.name, "ns_DELETE_SESSION_STREAM");
    assert_eq!(queue.retention, Retention::WorkQueue);
    assert_eq!(queue.subjects, vec!["ns.edgegap_delete_session_q.*"]);
    let (subject, payload) = session_delete_message(&prefix, "950d.S".to_string());
    assert_eq!(subject, "ns.edgegap_delete_session_q.950d_S");
    assert_eq!(payload, "950d.S");
}

fn connect_vars() -> ConnectVars {
    ConnectVars {
        insecure: None,
        require_secure: None,
        allow_dev_credentials: None,
        ca: None,
        ca_contents: None,
        host: Some("nats.example.com".to_string()),
        user: Some("lightrider".to_string()),
        password: Some("lightrider".to_string()),
    }
}

#[test]
fn connection_uses_tls_unless_switched_off() {
    let mut vars = connect_vars();
    let plan = connect_plan(&vars, "matchmaker").unwrap();
    assert!(plan.require_tls);
    assert_eq!(plan.name, "matchmaker");
    assert_eq!(plan.host, "nats.example.com");
    assert_eq!(plan.user, "lightrider");
    assert_eq!(plan.password, "lightrider");
    assert_eq!(plan.max_reconnects, 10);
    vars.insecure = Some("on".to_string());
    assert!(!connect_plan(&vars, "matchmaker").unwrap().require_tls);
}

#[test]
fn connection_is_refused_where_security_is_required() {
    let mut vars = connect_vars();
    vars.require_secure = Some("1".to_string());
    assert_eq!(
        connect_plan(&vars, "m"),
        Err(ConnectRefusal::DefaultCredentials)
    );
    vars.allow_dev_credentials = Some("y".to_string());
    assert!(connect_plan(&vars, "m").is_ok());
    vars.insecure = Some("true".to_string());
    assert_eq!(connect_plan(&vars, "m"), Err(ConnectRefusal::Insecure));
    vars.insecure = None;
    vars.allow_dev_credentials = None;
    vars.password = Some("stronger".to_string());
    assert!(connect_plan(&vars, "m").unwrap().require_tls);
    assert!(ConnectRefusal::Insecure.message().contains("forbids NATS_INSECURE"));
    assert!(ConnectRefusal::DefaultCredentials
        .message()
        .contains("forbids default NATS credentials"));
}

#[test]
fn connection_needs_host_user_and_password() {
    let mut vars = connect_vars();
    vars.password = None;
    assert_eq!(connect_plan(&vars, "m"), Err(ConnectRefusal::MissingPassword));
    vars.user = None;
    assert_eq!(connect_plan(&vars, "m"), Err(ConnectRefusal::MissingUser));
    vars.host = None;
    assert_eq!(connect_plan(&vars, "m"), Err(ConnectRefusal::MissingHost));
    assert_eq!(ConnectRefusal::MissingHost.message(), "Missing NATS_HOST env");
    assert_eq!(ConnectRefusal::MissingUser.message(), "Missing NATS_USER env");
    assert_eq!(
        ConnectRefusal::MissingPassword.message(),
        "Missing NATS_PASSWORD env"
    );
}

#[test]
fn certificate_authority_comes_from_a_path_or_from_contents() {
    let mut vars = connect_vars();
    assert_eq!(ca_source(&vars, "a/b c"), CaSource::Trusted);
    vars.ca_contents = Some("PEM".to_string());
    assert_eq!(
        ca_source(&vars, "a/b c-1_"),
        CaSource::Contents {
            file_name: "rootCA-abc-1_.pem".to_string(),
            contents: "PEM".to_string()
        }
    );
    vars.ca = Some("/ca.pem".to_string());
    assert_eq!(
        ca_source(&vars, "x"),
        CaSource::Path("/ca.pem".to_string())
    );
}
