use tunnel_mate::host_key_prompt::{host_key_error, parse_host_key_prompt, HostKeyIssue};
use tunnel_mate::known_hosts::{
    host_key_status, known_host_fingerprints_in, known_host_key_status, known_host_line, known_host_names, saved_fingerprints, known_host_patterns_match, remove_known_host_entries, split_lines,
    wildcard_match, EntryFacts, HostKeyStatus, HostMarker, HostPatterns,
};
use tunnel_mate::ssh_auth::{
    auth_plan, client_config, client_settings, default_key_candidates, default_key_candidates_in,
    final_auth_error, key_load_error, policy_reads_known_hosts, select_rsa_hash, server_key_decision, session_end_message,
    session_end_report, update_key_auth_error, AuthPlan, KnownHostsPolicy, RsaHash, ServerKeyDecision,
    SessionEnd,
};

#[test]
fn default_key_auth_returns_passphrase_required() {
    let mut last_key_error = None;
    update_key_auth_error(
        &mut last_key_error,
        "Private key authentication failed".to_string(),
    )
    .unwrap();

    let err = update_key_auth_error(&mut last_key_error, "PASSPHRASE_REQUIRED".to_string())
        .unwrap_err();

    assert_eq!(err, "PASSPHRASE_REQUIRED");
}

#[test]
fn key_errors_are_remembered_until_a_passphrase_is_needed() {
    let mut last = None;
    update_key_auth_error(&mut last, "first".to_string()).unwrap();
    update_key_auth_error(&mut last, "second".to_string()).unwrap();
    assert_eq!(last.as_deref(), Some("second"));
    assert!(update_key_auth_error(&mut last, "PASSPHRASE_REQUIRED".to_string()).is_err());
    assert_eq!(last.as_deref(), Some("second"));
    assert_eq!(final_auth_error(last), "second");
    assert!(final_auth_error(None).starts_with("All authentication methods failed."));
}

#[test]
fn rsa_auth_prefers_sha2_without_legacy_sha1_fallback() {
    assert_eq!(
        select_rsa_hash(Some(Some(RsaHash::Sha512))).unwrap(),
        Some(RsaHash::Sha512)
    );
    assert_eq!(select_rsa_hash(None).unwrap(), Some(RsaHash::Sha256));
    assert!(select_rsa_hash(Some(None)).is_err());
}

#[test]
fn keepalive_does_not_turn_idle_sessions_into_failures() {
    let enabled = client_config(30);
    assert_eq!(enabled.keepalive_interval, Some(std::time::Duration::from_secs(30)));
    assert_eq!(enabled.keepalive_max, 3);
    assert_eq!(enabled.inactivity_timeout, None);

    let disabled = client_config(0);
    assert_eq!(disabled.keepalive_interval, None);
    assert_eq!(disabled.inactivity_timeout, None);
}

#[test]
fn client_settings_follow_the_keepalive_interval() {
    let s = client_settings(15);
    assert!(s.nodelay);
    assert_eq!(s.keepalive_interval, Some(15));
    assert_eq!(s.inactivity_timeout, None);
    assert_eq!(client_settings(0).keepalive_interval, None);
}

#[test]
fn session_end_messages_preserve_the_failure_reason() {
    assert_eq!(
        session_end_message(&Err(russh::Error::KeepaliveTimeout)),
        "SSH keepalive timed out"
    );
    assert_eq!(
        session_end_message(&Err(russh::Error::HUP)),
        "SSH connection closed by remote host"
    );
}

#[test]
fn session_end_reports_each_cause() {
    assert_eq!(session_end_message(&Ok(())), "SSH session ended");
    assert_eq!(session_end_report(&SessionEnd::InactivityTimeout), "SSH session inactivity timed out");
    assert_eq!(
        session_end_report(&SessionEnd::DisconnectedByRemote),
        "SSH session disconnected by remote host"
    );
    assert_eq!(
        session_end_report(&SessionEnd::Other("boom".to_string())),
        "SSH session disconnected: boom"
    );
}

#[test]
fn engine_default_key_candidates_keep_ssh_order() {
    let names: Vec<_> = default_key_candidates()
        .iter()
        .filter_map(|p| std::path::Path::new(p).file_name().map(|n| n.to_string_lossy().to_string()))
        .collect();

    assert_eq!(names, ["id_ed25519", "id_rsa", "id_ecdsa", "id_dsa"]);
}

#[test]
fn default_keys_live_under_dot_ssh() {
    assert_eq!(
        default_key_candidates_in(&Some("/home/u".to_string())),
        vec![
            "/home/u/.ssh/id_ed25519".to_string(),
            "/home/u/.ssh/id_rsa".to_string(),
            "/home/u/.ssh/id_ecdsa".to_string(),
            "/home/u/.ssh/id_dsa".to_string(),
        ]
    );
    assert!(default_key_candidates_in(&None).is_empty());
}

#[test]
fn auth_plan_prefers_key_file_then_password_then_agent() {
    assert!(matches!(auth_plan(Some("/k"), Some("pw")), AuthPlan::KeyFile(p) if p == "/k"));
    assert!(matches!(auth_plan(None, Some("pw")), AuthPlan::Password(p) if p == "pw"));
    assert!(matches!(auth_plan(None, Some("")), AuthPlan::AgentThenDefaultKeys));
    assert!(matches!(auth_plan(None, None), AuthPlan::AgentThenDefaultKeys));
}

#[test]
fn key_load_errors_detect_encrypted_keys() {
    assert_eq!(key_load_error("The key is ENCRYPTED", "/k"), "PASSPHRASE_REQUIRED");
    assert_eq!(key_load_error("bad Passphrase given", "/k"), "PASSPHRASE_REQUIRED");
    assert_eq!(
        key_load_error("invalid format", "/home/u/.ssh/id_rsa"),
        "Failed to load private key /home/u/.ssh/id_rsa: invalid format"
    );
}

#[test]
fn server_keys_are_decided_by_policy_and_status() {
    assert!(matches!(
        server_key_decision(None, "SHA256:a", KnownHostsPolicy::TrustOnce, HostKeyStatus::Changed),
        ServerKeyDecision::Accept
    ));
    assert!(matches!(
        server_key_decision(None, "SHA256:a", KnownHostsPolicy::TrustAndRemember, HostKeyStatus::Unknown),
        ServerKeyDecision::RecordAndAccept
    ));
    assert!(matches!(
        server_key_decision(None, "SHA256:a", KnownHostsPolicy::RequireKnown, HostKeyStatus::Unknown),
        ServerKeyDecision::Refuse(HostKeyIssue::Unknown)
    ));
    assert!(matches!(
        server_key_decision(None, "SHA256:a", KnownHostsPolicy::RequireKnown, HostKeyStatus::Revoked),
        ServerKeyDecision::Refuse(HostKeyIssue::Revoked)
    ));
    match server_key_decision(Some("SHA256:b"), "SHA256:a", KnownHostsPolicy::TrustOnce, HostKeyStatus::Trusted) {
        ServerKeyDecision::Mismatch(m) => assert_eq!(
            m,
            "The SSH host key changed again while confirming it (expected SHA256:b, received SHA256:a). Connection blocked."
        ),
        other => panic!("unexpected {:?}", other),
    }
    assert!(matches!(
        server_key_decision(Some("SHA256:a"), "SHA256:a", KnownHostsPolicy::RequireKnown, HostKeyStatus::Trusted),
        ServerKeyDecision::Accept
    ));
}

#[test]
fn known_host_patterns_support_wildcards_and_negation() {
    let hosts = vec!["api.example.com".to_string()];
    assert!(known_host_patterns_match(
        &HostPatterns::Patterns(vec!["*.example.com".to_string()]),
        &hosts
    ));
    assert!(!known_host_patterns_match(
        &HostPatterns::Patterns(vec![
            "*.example.com".to_string(),
            "!api.example.com".to_string(),
        ]),
        &hosts
    ));
}

#[test]
fn known_host_patterns_support_openssh_hashed_names() {
    let salt = vec![7; 20];
    let key = ring::hmac::Key::new(ring::hmac::HMAC_SHA1_FOR_LEGACY_USE_ONLY, &salt);
    let tag = ring::hmac::sign(&key, b"[example.com]:2222");
    let mut hash = [0u8; 20];
    hash.copy_from_slice(tag.as_ref());
    let pattern = HostPatterns::HashedName { salt, hash };

    assert!(known_host_patterns_match(
        &pattern,
        &vec!["[example.com]:2222".to_string()]
    ));
    assert!(!known_host_patterns_match(
        &pattern,
        &vec!["[example.com]:22".to_string()]
    ));
}

#[test]
fn replacing_host_key_removes_only_matching_non_ca_entries() {
    let key = "ssh-ed25519 AAAAC3NzaC1lZDI1NTE5AAAAIALndOGf6U9tjg0dJPWxBm+FxomYRRJOt2HZ2jFUh67F";
    let content = format!(
        "example.com {key}\nother.example.com {key}\n@cert-authority example.com {key}\n"
    );

    assert_eq!(
        remove_known_host_entries(&content, "example.com", 22),
        format!("other.example.com {key}\n@cert-authority example.com {key}\n")
    );
}

#[test]
fn removing_every_line_leaves_no_trailing_newline() {
    let key = "ssh-ed25519 AAAAC3NzaC1lZDI1NTE5AAAAIALndOGf6U9tjg0dJPWxBm+FxomYRRJOt2HZ2jFUh67F";
    let content = format!("[example.com]:2222 {key}\n");
    assert_eq!(remove_known_host_entries(&content, "example.com", 2222), "");
    let kept = format!("# comment\n[example.com]:2222 {key}");
    assert_eq!(remove_known_host_entries(&kept, "example.com", 2222), "# comment");
}

#[test]
fn splits_lines_like_str_lines() {
    assert_eq!(split_lines("a\r\nb\n\nc"), vec!["a", "b", "", "c"]);
    assert_eq!(split_lines("a\n"), vec!["a"]);
    assert!(split_lines("").is_empty());
    assert_eq!(split_lines("x\r"), vec!["x\r"]);
}

#[test]
fn wildcards_match_case_insensitively() {
    assert!(wildcard_match("*.Example.COM", "api.example.com"));
    assert!(wildcard_match("h?st", "HOST"));
    assert!(!wildcard_match("h?st", "hst"));
    assert!(wildcard_match("*", ""));
}

#[test]
fn known_host_names_bracket_other_ports() {
    assert_eq!(known_host_names("example.com", 22), vec!["example.com".to_string()]);
    assert_eq!(known_host_names("example.com", 2222), vec!["[example.com]:2222".to_string()]);
}

#[test]
fn host_key_status_prefers_revocation() {
    let trusted = EntryFacts { marker: None, covers_host: true, same_key: true };
    let revoked = EntryFacts { marker: Some(HostMarker::Revoked), covers_host: true, same_key: true };
    let other = EntryFacts { marker: None, covers_host: true, same_key: false };
    let ca = EntryFacts { marker: Some(HostMarker::CertAuthority), covers_host: true, same_key: true };
    let elsewhere = EntryFacts { marker: None, covers_host: false, same_key: true };
    assert_eq!(host_key_status(&vec![trusted, revoked]), HostKeyStatus::Revoked);
    assert_eq!(host_key_status(&vec![other, trusted]), HostKeyStatus::Trusted);
    assert_eq!(host_key_status(&vec![other, ca]), HostKeyStatus::Changed);
    assert_eq!(host_key_status(&vec![ca, elsewhere]), HostKeyStatus::Unknown);
}

#[test]
fn parses_host_key_intervention_message() {
    assert_eq!(
        parse_host_key_prompt("HOST_KEY_NOT_TRUSTED|example.com|2222|SHA256:abc"),
        Some((
            HostKeyIssue::Unknown,
            "example.com".to_string(),
            2222,
            "SHA256:abc".to_string(),
            vec![]
        ))
    );
    assert_eq!(
        parse_host_key_prompt("HOST_KEY_CHANGED|example.com|22|SHA256:new|SHA256:old,SHA256:older")
            .unwrap()
            .4,
        vec!["SHA256:old", "SHA256:older"]
    );
    assert!(parse_host_key_prompt("ordinary error").is_none());
}

#[test]
fn host_key_messages_read_back() {
    let saved = vec!["SHA256:old".to_string(), "SHA256:older".to_string()];
    let message = host_key_error(HostKeyIssue::Revoked, "h.example", 2200, "SHA256:new", &saved);
    assert_eq!(message, "HOST_KEY_REVOKED|h.example|2200|SHA256:new|SHA256:old,SHA256:older");
    assert_eq!(
        parse_host_key_prompt(&message),
        Some((HostKeyIssue::Revoked, "h.example".to_string(), 2200, "SHA256:new".to_string(), saved))
    );
    assert!(parse_host_key_prompt("HOST_KEY_CHANGED|h|notaport|SHA256:x").is_none());
    assert!(parse_host_key_prompt("HOST_KEY_CHANGED||22|SHA256:x").is_none());
}

#[test]
fn saved_fingerprints_list_each_counting_key_once() {
    let entry = |marker: Option<HostMarker>, covers_host: bool| EntryFacts { marker, covers_host, same_key: false };
    let facts = vec![
        entry(None, true),
        entry(None, false),
        entry(Some(HostMarker::CertAuthority), true),
        entry(Some(HostMarker::Revoked), true),
        entry(None, true),
    ];
    let fingerprints: Vec<String> = ["SHA256:a", "SHA256:b", "SHA256:c", "SHA256:d", "SHA256:a"]
        .iter()
        .map(|f| f.to_string())
        .collect();
    assert_eq!(
        saved_fingerprints(&facts, &fingerprints),
        vec!["SHA256:a".to_string(), "SHA256:d".to_string()]
    );
    assert!(saved_fingerprints(&Vec::new(), &Vec::new()).is_empty());
}

#[test]
fn known_host_lines_name_the_server_by_port() {
    let key = "ssh-ed25519 AAAAC3NzaC1lZDI1NTE5AAAAIALndOGf6U9tjg0dJPWxBm+FxomYRRJOt2HZ2jFUh67F";
    assert_eq!(known_host_line("example.com", 22, key), format!("example.com {key}\n"));
    assert_eq!(known_host_line("example.com", 2222, key), format!("[example.com]:2222 {key}\n"));
}

#[test]
fn key_status_reads_the_known_hosts_text() {
    let first = "ssh-ed25519 AAAAC3NzaC1lZDI1NTE5AAAAIALndOGf6U9tjg0dJPWxBm+FxomYRRJOt2HZ2jFUh67F";
    let second = "ssh-ed25519 AAAAC3NzaC1lZDI1NTE5AAAAIALndOGf6V9tjg0dJPWxBm+FxomYRRJOt2HZ2jFUh67F";
    let content = format!("# saved keys\nexample.com {first}\n[example.com]:2222 {second}\n");
    assert_eq!(known_host_key_status(&content, "example.com", 22, Some(first)), HostKeyStatus::Trusted);
    assert_eq!(known_host_key_status(&content, "example.com", 22, Some(second)), HostKeyStatus::Changed);
    assert_eq!(known_host_key_status(&content, "example.com", 2222, Some(second)), HostKeyStatus::Trusted);
    assert_eq!(known_host_key_status(&content, "example.com", 22, None), HostKeyStatus::Changed);
    assert_eq!(known_host_key_status(&content, "other.example.com", 22, Some(first)), HostKeyStatus::Unknown);
    let revoked = format!("example.com {first}\n@revoked example.com {first}\n");
    assert_eq!(known_host_key_status(&revoked, "example.com", 22, Some(first)), HostKeyStatus::Revoked);
    let ca_only = format!("@cert-authority example.com {first}\n");
    assert_eq!(known_host_key_status(&ca_only, "example.com", 22, Some(first)), HostKeyStatus::Unknown);
}

#[test]
fn fingerprints_are_read_from_the_known_hosts_text() {
    let first = "ssh-ed25519 AAAAC3NzaC1lZDI1NTE5AAAAIALndOGf6U9tjg0dJPWxBm+FxomYRRJOt2HZ2jFUh67F";
    let second = "ssh-ed25519 AAAAC3NzaC1lZDI1NTE5AAAAIALndOGf6V9tjg0dJPWxBm+FxomYRRJOt2HZ2jFUh67F";
    let content = format!(
        "example.com {first}\nnot a key line\n[example.com]:2222 {first}\nexample.com {first}\n@revoked example.com {second}\n"
    );
    assert_eq!(
        known_host_fingerprints_in(&content, "example.com", 22),
        vec![
            "SHA256:5MCdweS5kirTd0ZfOAUek6gOiVkct1pbsLxp5UYPIb0".to_string(),
            "SHA256:5zairICoFe5c6azuM7Ut0kVNB8LjAcYdKNuzHhpPP00".to_string(),
        ]
    );
    assert!(known_host_fingerprints_in(&content, "elsewhere", 22).is_empty());
}

#[test]
fn removing_host_entries_twice_changes_nothing() {
    let key = "ssh-ed25519 AAAAC3NzaC1lZDI1NTE5AAAAIALndOGf6U9tjg0dJPWxBm+FxomYRRJOt2HZ2jFUh67F";
    let content = format!(
        "# saved\nexample.com {key}\n\nother.example.com {key}\n@cert-authority example.com {key}\nexample.com,alias {key}\n"
    );
    let once = remove_known_host_entries(&content, "example.com", 22);
    assert_eq!(once, format!("# saved\n\nother.example.com {key}\n@cert-authority example.com {key}\n"));
    assert_eq!(remove_known_host_entries(&once, "example.com", 22), once);
    let no_final_feed = format!("a\nexample.com {key}");
    let once = remove_known_host_entries(&no_final_feed, "example.com", 22);
    assert_eq!(once, "a");
    assert_eq!(remove_known_host_entries(&once, "example.com", 22), once);
    let returns = format!("a\r\nexample.com {key}\r\nb\r");
    let once = remove_known_host_entries(&returns, "example.com", 22);
    assert_eq!(once, "a\nb\r");
    assert_eq!(remove_known_host_entries(&once, "example.com", 22), once);
}

#[test]
fn only_trusting_once_skips_known_hosts() {
    assert!(!policy_reads_known_hosts(KnownHostsPolicy::TrustOnce));
    assert!(policy_reads_known_hosts(KnownHostsPolicy::TrustAndRemember));
    assert!(policy_reads_known_hosts(KnownHostsPolicy::RequireKnown));
}
