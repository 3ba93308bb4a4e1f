use tunnel_mate::config::{Endpoint, ForwardSpec, Tunnel, TunnelStatus};
use tunnel_mate::manager::{
    attempt_jump_config, needs_user_action, reconnect_message, FailureOutcome, ReconnectStep, StatusPayload,
    TunnelManager,
};

fn tunnel(id: &str) -> Tunnel {
    Tunnel {
        id: id.to_string(),
        name: "Web".to_string(),
        description: None,
        group_id: None,
        ssh_host: "ssh.example.com".to_string(),
        ssh_port: 22,
        ssh_user: "root".to_string(),
        ssh_identity_file: None,
        ssh_password: None,
        jump_host_enabled: false,
        jump_host_id: None,
        jump_host: None,
        jump_port: None,
        jump_user: None,
        jump_identity_file: None,
        jump_password: None,
        forward: ForwardSpec::Local {
            listen: Endpoint { host: "127.0.0.1".to_string(), port: 8080 },
            target: Endpoint { host: "localhost".to_string(), port: 80 },
        },
        start_with_app: false,
        auto_reconnect: true,
        retry_count: 2,
        retry_interval: 5,
    }
}

#[test]
fn cancelling_an_operation_allows_a_fresh_start_generation() {
    let mut manager = TunnelManager::new();
    let id = "tunnel-1".to_string();
    let (first, _) = manager.begin_operation(&id).unwrap();

    assert!(manager
        .begin_operation(&id)
        .unwrap_err()
        .contains("already running or connecting"));

    manager.stop_tunnel(&id);
    assert!(!manager.operation_is_current(&id, first));

    let (second, _) = manager.begin_operation(&id).unwrap();
    assert_ne!(first, second);
    assert!(manager.operation_is_current(&id, second));
}

#[test]
fn outcomes_of_a_stale_operation_change_nothing() {
    let mut m = TunnelManager::new();
    let id = "t".to_string();
    let (op, _) = m.begin_operation(&id).unwrap();
    assert_eq!(m.get_status(&id), TunnelStatus::Connecting);
    m.stop_tunnel(&id);
    assert_eq!(m.get_status(&id), TunnelStatus::Stopped);
    assert!(m.session_started(&id, op).is_none());
    assert_eq!(m.attempt_started(&id, op), Err("Tunnel operation was cancelled".to_string()));
    assert!(m.forwarding_failed(&id, op, "bind").is_none());
    assert_eq!(m.connection_failed(&id, op, "boom", true), FailureOutcome::Ignored);
    assert_eq!(m.schedule_reconnect(&id, op, 1, 3), ReconnectStep::Ignored);
    assert_eq!(m.get_status(&id), TunnelStatus::Stopped);
}

#[test]
fn connection_lifecycle_updates_status() {
    let mut m = TunnelManager::new();
    let id = "t".to_string();
    let (op, cancel) = m.begin_operation(&id).unwrap();
    assert!(!cancel);
    assert_eq!(
        m.attempt_started(&id, op),
        Ok((status(&id, TunnelStatus::Connecting, Some("Connecting to SSH host...")), "Tunnel connection starting...".to_string()))
    );
    assert_eq!(
        m.session_started(&id, op),
        Some((status(&id, TunnelStatus::Running, None), "Tunnel is active".to_string()))
    );
    assert_eq!(m.get_status(&id), TunnelStatus::Running);
    assert!(m.begin_operation(&id).is_err());
    assert_eq!(m.session_closed(&id, op, true), FailureOutcome::Retry);
    assert_eq!(
        m.schedule_reconnect(&id, op, 1, 2),
        ReconnectStep::Wait {
            status: status(&id, TunnelStatus::Reconnecting, Some("Reconnecting (attempt 1/2)...")),
            activity: "Reconnecting attempt 1/2...".to_string(),
        }
    );
    assert_eq!(m.get_status(&id), TunnelStatus::Reconnecting);
    assert_eq!(m.connection_failed(&id, op, "refused", true), FailureOutcome::Retry);
    assert_eq!(
        m.schedule_reconnect(&id, op, 3, 2),
        ReconnectStep::GiveUp {
            status: status(&id, TunnelStatus::Failed, Some("Max reconnect attempts reached")),
            activity: "Max reconnect attempts reached. Giving up.".to_string(),
        }
    );
    assert_eq!(m.get_status(&id), TunnelStatus::Failed);
    assert!(!m.operation_is_current(&id, op));
    assert!(m.begin_operation(&id).is_ok());
}

#[test]
fn errors_needing_the_user_end_the_operation() {
    let mut m = TunnelManager::new();
    let id = "t".to_string();
    let (op, _) = m.begin_operation(&id).unwrap();
    assert_eq!(
        m.connection_failed(&id, op, "HOST_KEY_CHANGED|h|22|fp|", true),
        FailureOutcome::Failed(status(&id, TunnelStatus::Failed, Some("HOST_KEY_CHANGED|h|22|fp|")))
    );
    assert_eq!(m.get_status(&id), TunnelStatus::Failed);
    assert!(needs_user_action("PASSPHRASE_REQUIRED"));
    assert!(needs_user_action("HOST_KEY_NOT_TRUSTED|x"));
    assert!(needs_user_action("HOST_KEY_REVOKED|x"));
    assert!(!needs_user_action("HOST_KEY_CHANGED"));
    assert!(!needs_user_action("Connection refused"));
}

#[test]
fn unknown_tunnels_are_stopped_and_ids_with_operations_are_listed() {
    let mut m = TunnelManager::new();
    assert_eq!(m.get_status(&"nobody".to_string()), TunnelStatus::Stopped);
    m.begin_operation(&"a".to_string()).unwrap();
    m.begin_operation(&"b".to_string()).unwrap();
    m.stop_tunnel(&"a".to_string());
    assert_eq!(m.operation_ids(), vec!["b".to_string()]);
}

#[test]
fn reconnect_message_counts_attempts() {
    assert_eq!(reconnect_message(2, 5), "Reconnecting (attempt 2/5)...");
}

#[test]
fn jump_hosts_resolve_for_connection_attempts() {
    let mut t = tunnel("t1");
    assert_eq!(attempt_jump_config(&t, &vec![]), Ok(None));
    t.jump_host_enabled = true;
    t.jump_host_id = Some("missing".to_string());
    assert_eq!(
        attempt_jump_config(&t, &vec![]),
        Err("Tunnel 'Web' jump host reference was not found".to_string())
    );
    let mut j = tunnel("j");
    j.ssh_host = "bastion".to_string();
    t.jump_host_id = Some("j".to_string());
    assert_eq!(attempt_jump_config(&t, &vec![j.clone()]), Ok(Some(j)));
    t.jump_host_id = None;
    assert_eq!(
        attempt_jump_config(&t, &vec![]),
        Err("Tunnel 'Web' jump port is required".to_string())
    );
    t.jump_port = Some(2200);
    assert_eq!(
        attempt_jump_config(&t, &vec![]),
        Err("Tunnel 'Web' jump user is required".to_string())
    );
    t.jump_user = Some("ops".to_string());
    t.jump_host = Some("jump.example".to_string());
    let manual = attempt_jump_config(&t, &vec![]).unwrap().unwrap();
    assert_eq!(manual.id, "t1_manual_jump");
    assert_eq!(manual.name, "jump.example");
    assert_eq!(manual.ssh_port, 2200);
    assert_eq!(manual.ssh_user, "ops");
    assert!(!manual.auto_reconnect);
    assert_eq!(manual.retry_count, 0);
}

#[test]
fn remote_forwards_listen_on_the_requested_or_allocated_port() {
    assert_eq!(tunnel_mate::manager::active_remote_port(0, 40123), 40123);
    assert_eq!(tunnel_mate::manager::active_remote_port(8080, 40123), 8080);
}

fn status(id: &str, status: TunnelStatus, message: Option<&str>) -> StatusPayload {
    StatusPayload { tunnel_id: id.to_string(), status, message: message.map(|m| m.to_string()) }
}

#[test]
fn stopping_reports_stopped_and_records_only_a_running_session() {
    let mut m = TunnelManager::new();
    let id = "t".to_string();
    let (op, _) = m.begin_operation(&id).unwrap();
    m.attempt_started(&id, op).unwrap();
    m.session_started(&id, op).unwrap();
    let outcome = m.stop_tunnel(&id);
    assert!(outcome.had_session);
    assert!(!outcome.had_reconnect);
    assert_eq!(outcome.status, status(&id, TunnelStatus::Stopped, None));
    assert_eq!(outcome.activity, Some("Tunnel stopped by user".to_string()));
    let again = m.stop_tunnel(&id);
    assert!(!again.had_session);
    assert_eq!(again.activity, None);
    assert_eq!(again.status, status(&id, TunnelStatus::Stopped, None));
}

#[test]
fn closed_sessions_and_forwarding_failures_report_their_messages() {
    let mut m = TunnelManager::new();
    let id = "t".to_string();
    let (op, _) = m.begin_operation(&id).unwrap();
    assert_eq!(
        m.forwarding_failed(&id, op, "port in use"),
        Some(status(&id, TunnelStatus::Failed, Some("Failed to start forwarding listeners: port in use")))
    );
    let (op, _) = m.begin_operation(&id).unwrap();
    m.session_started(&id, op).unwrap();
    assert_eq!(
        m.session_closed(&id, op, false),
        FailureOutcome::Failed(status(&id, TunnelStatus::Failed, Some("Session disconnected")))
    );
}
