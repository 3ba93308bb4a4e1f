use tunnel_mate::config::{Endpoint, ForwardSpec, Tunnel};
use tunnel_mate::diagnostics::{
    resolve_diagnostic_target, resolve_forward_tcp_check, resolve_jump_config, resolve_local_bind_check,
    resolve_remote_listener, DiagnosticEndpoint,
};
use tunnel_mate::direct_diagnostics;

fn endpoint(host: &str, port: u16) -> Endpoint {
    Endpoint {
        host: host.to_string(),
        port,
    }
}

fn base_tunnel(forward: ForwardSpec) -> Tunnel {
    Tunnel {
        id: "t1".to_string(),
        name: "test".to_string(),
        description: None,
        group_id: None,
        ssh_host: "example.test".to_string(),
        ssh_port: 22,
        ssh_user: "root".to_string(),
        ssh_identity_file: Some("/tmp/key".to_string()),
        ssh_password: None,
        jump_host_enabled: false,
        jump_host_id: None,
        jump_host: None,
        jump_port: None,
        jump_user: None,
        jump_identity_file: None,
        jump_password: None,
        forward,
        start_with_app: false,
        auto_reconnect: false,
        retry_count: 3,
        retry_interval: 5,
    }
}

#[test]
fn remote_diagnostics_skip_local_bind_and_check_target() {
    let tunnel = base_tunnel(ForwardSpec::Remote {
        listen: endpoint("0.0.0.0", 18080),
        target: endpoint("127.0.0.1", 3000),
    });

    assert_eq!(resolve_local_bind_check(&tunnel), None);
    assert_eq!(
        resolve_remote_listener(&tunnel),
        DiagnosticEndpoint {
            host: "0.0.0.0".to_string(),
            port: 18080,
            prefix: "",
        }
    );
    assert_eq!(
        resolve_forward_tcp_check(&tunnel),
        Some(DiagnosticEndpoint {
            host: "127.0.0.1".to_string(),
            port: 3000,
            prefix: "[Target] ",
        })
    );
}

#[test]
fn local_diagnostics_keep_local_bind_and_skip_target_precheck() {
    let tunnel = base_tunnel(ForwardSpec::Local {
        listen: endpoint("127.0.0.1", 18080),
        target: endpoint("127.0.0.1", 80),
    });

    assert_eq!(
        resolve_local_bind_check(&tunnel),
        Some(DiagnosticEndpoint {
            host: "127.0.0.1".to_string(),
            port: 18080,
            prefix: "",
        })
    );
    assert_eq!(resolve_forward_tcp_check(&tunnel), None);
}

#[test]
fn socks5_diagnostics_have_local_bind_but_no_target() {
    let tunnel = base_tunnel(ForwardSpec::Socks5 {
        listen: endpoint("127.0.0.1", 1080),
    });

    assert!(resolve_local_bind_check(&tunnel).is_some());
    assert_eq!(resolve_forward_tcp_check(&tunnel), None);
}

#[test]
fn resolve_direct_diagnostic_target() {
    let tunnel = base_tunnel(ForwardSpec::Local {
        listen: endpoint("127.0.0.1", 18080),
        target: endpoint("127.0.0.1", 80),
    });
    let target = resolve_diagnostic_target(&tunnel, &vec![]);

    assert_eq!(target.host, "example.test");
    assert_eq!(target.port, 22);
    assert_eq!(target.user, "root");
    assert_eq!(target.identity_file.as_deref(), Some("/tmp/key"));
    assert_eq!(target.prefix, "");
}

#[test]
fn diagnostics_remote_diagnostics_skip_local_bind_and_check_target() {
    let tunnel = base_tunnel(ForwardSpec::Remote {
        listen: endpoint("0.0.0.0", 18080),
        target: endpoint("127.0.0.1", 3000),
    });

    assert_eq!(direct_diagnostics::resolve_local_bind_check(&tunnel), None);
    assert_eq!(
        direct_diagnostics::resolve_remote_listener(&tunnel),
        DiagnosticEndpoint {
            host: "0.0.0.0".to_string(),
            port: 18080,
            prefix: "",
        }
    );
    assert_eq!(
        direct_diagnostics::resolve_forward_tcp_check(&tunnel),
        Some(DiagnosticEndpoint {
            host: "127.0.0.1".to_string(),
            port: 3000,
            prefix: "[Target] ",
        })
    );
}

#[test]
fn diagnostics_local_diagnostics_keep_local_bind_and_skip_target_precheck() {
    let tunnel = base_tunnel(ForwardSpec::Local {
        listen: endpoint("127.0.0.1", 18080),
        target: endpoint("127.0.0.1", 80),
    });

    assert_eq!(
        direct_diagnostics::resolve_local_bind_check(&tunnel),
        Some(DiagnosticEndpoint {
            host: "127.0.0.1".to_string(),
            port: 18080,
            prefix: "",
        })
    );
    assert_eq!(direct_diagnostics::resolve_forward_tcp_check(&tunnel), None);
}

#[test]
fn diagnostics_socks5_diagnostics_have_local_bind_but_no_target() {
    let tunnel = base_tunnel(ForwardSpec::Socks5 {
        listen: endpoint("127.0.0.1", 1080),
    });

    assert!(direct_diagnostics::resolve_local_bind_check(&tunnel).is_some());
    assert_eq!(direct_diagnostics::resolve_forward_tcp_check(&tunnel), None);
}

#[test]
fn diagnostics_resolve_direct_diagnostic_target() {
    let tunnel = base_tunnel(ForwardSpec::Local {
        listen: endpoint("127.0.0.1", 18080),
        target: endpoint("127.0.0.1", 80),
    });
    let target = direct_diagnostics::resolve_diagnostic_target(&tunnel);

    assert_eq!(target.host, "example.test");
    assert_eq!(target.port, 22);
    assert_eq!(target.user, "root");
    assert_eq!(target.identity_file.as_deref(), Some("/tmp/key"));
    assert_eq!(target.prefix, "");
}

#[test]
fn jump_host_reference_is_used_for_the_target() {
    let mut jump = base_tunnel(ForwardSpec::Socks5 {
        listen: endpoint("127.0.0.1", 1080),
    });
    jump.id = "jump".to_string();
    jump.ssh_host = "bastion.example".to_string();
    jump.ssh_port = 2200;
    jump.ssh_user = "ops".to_string();
    let mut tunnel = base_tunnel(ForwardSpec::Local {
        listen: endpoint("127.0.0.1", 18080),
        target: endpoint("db", 5432),
    });
    tunnel.jump_host_enabled = true;
    tunnel.jump_host_id = Some("jump".to_string());
    let all = vec![jump.clone()];

    let target = resolve_diagnostic_target(&tunnel, &all);
    assert_eq!(target.host, "bastion.example");
    assert_eq!(target.port, 2200);
    assert_eq!(target.user, "ops");
    assert_eq!(target.prefix, "[Jump Host] ");
    assert_eq!(resolve_jump_config(&tunnel, &all), Some(jump));
}

#[test]
fn manual_jump_host_defaults_to_port_22_for_the_connection() {
    let mut tunnel = base_tunnel(ForwardSpec::Local {
        listen: endpoint("127.0.0.1", 18080),
        target: endpoint("db", 5432),
    });
    tunnel.jump_host_enabled = true;
    tunnel.jump_host = Some("jump.example".to_string());
    tunnel.jump_user = Some("me".to_string());

    let target = resolve_diagnostic_target(&tunnel, &vec![]);
    assert_eq!(target.host, "jump.example");
    assert_eq!(target.port, 0);
    assert_eq!(target.prefix, "[Jump Host] ");

    let jump = resolve_jump_config(&tunnel, &vec![]).unwrap();
    assert_eq!(jump.id, "t1_diagnostic_jump");
    assert_eq!(jump.ssh_host, "jump.example");
    assert_eq!(jump.ssh_port, 22);
    assert_eq!(jump.ssh_user, "me");
    assert!(!jump.jump_host_enabled);

    let direct = direct_diagnostics::resolve_diagnostic_target(&tunnel);
    assert_eq!(direct.host, "jump.example");
    assert_eq!(direct.port, 0);
    assert_eq!(direct.user, "me");
}
