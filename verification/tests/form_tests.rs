use tunnel_mate::config::{Endpoint, ForwardSpec};
use tunnel_mate::i18n::Language;
use tunnel_mate::tunnel_form::{form_values_for, save_form_tunnel, tunnel_from_form, ForwardKind, TunnelFormValues};
use tunnel_mate::ssh_config::SshHostConfig;
use tunnel_mate::tunnel_form::{apply_ssh_host, SshPickerTarget};

fn form() -> TunnelFormValues {
    TunnelFormValues {
        editing_id: None,
        kind: ForwardKind::Local,
        start_after_save: true,
        auto_reconnect: true,
        start_with_app: false,
        jump_enabled: false,
        jump_host_id: None,
        group_id: Some("g".to_string()),
        name: "Database".to_string(),
        description: "  ".to_string(),
        ssh_host: "ssh.example.com".to_string(),
        ssh_port: "22".to_string(),
        ssh_user: "root".to_string(),
        identity_file: "".to_string(),
        ssh_password: "secret".to_string(),
        jump_host: "".to_string(),
        jump_port: "22".to_string(),
        jump_user: "".to_string(),
        jump_identity_file: "".to_string(),
        jump_password: "".to_string(),
        listen_host: "127.0.0.1".to_string(),
        listen_port: "5432".to_string(),
        target_host: "db.internal".to_string(),
        target_port: " 5432 ".to_string(),
        retry_count: "3".to_string(),
        retry_interval: "5".to_string(),
    }
}

#[test]
fn a_complete_form_makes_a_tunnel() {
    let t = tunnel_from_form(&form(), Language::En, "new-id").unwrap();
    assert_eq!(t.id, "new-id");
    assert_eq!(t.name, "Database");
    assert_eq!(t.description, None);
    assert_eq!(t.group_id.as_deref(), Some("g"));
    assert_eq!(t.ssh_password.as_deref(), Some("secret"));
    assert_eq!(
        t.forward,
        ForwardSpec::Local {
            listen: Endpoint { host: "127.0.0.1".to_string(), port: 5432 },
            target: Endpoint { host: "db.internal".to_string(), port: 5432 },
        }
    );
    assert_eq!(t.retry_count, 3);
    assert_eq!(t.retry_interval, 5);
    assert!(t.auto_reconnect);
    assert_eq!(t.jump_host, None);
}

#[test]
fn editing_keeps_the_id() {
    let mut f = form();
    f.editing_id = Some("old".to_string());
    assert_eq!(save_form_tunnel(&f, Language::En).unwrap().id, "old");
    assert!(!save_form_tunnel(&form(), Language::En).unwrap().id.is_empty());
    let fresh: Vec<char> = save_form_tunnel(&form(), Language::En).unwrap().id.chars().collect();
    assert_eq!(fresh.len(), 36);
    assert_eq!((fresh[8], fresh[13], fresh[14], fresh[18], fresh[23]), ('-', '-', '4', '-', '-'));
}

#[test]
fn blank_required_fields_are_listed() {
    let mut f = form();
    f.name = " ".to_string();
    f.target_port = "".to_string();
    f.retry_count = "".to_string();
    let e = tunnel_from_form(&f, Language::En, "id").unwrap_err();
    assert_eq!(e.message, "Complete the required fields: Name, Remote target port, Retry count");
    assert!(e.open_advanced);
    let e = tunnel_from_form(&f, Language::Zh, "id").unwrap_err();
    assert_eq!(e.message, "请填写以下必填项：名称、远端目标端口、重试次数");
}

#[test]
fn socks_forms_need_no_target_and_manual_jumps_need_their_fields() {
    let mut f = form();
    f.kind = ForwardKind::Socks5;
    f.target_host = "".to_string();
    f.target_port = "".to_string();
    f.jump_enabled = true;
    f.jump_port = "".to_string();
    let e = tunnel_from_form(&f, Language::En, "id").unwrap_err();
    assert_eq!(e.message, "Complete the required fields: Jump host, Jump host port, Jump host user");
    assert!(e.open_advanced);
    f.jump_host = "bastion".to_string();
    f.jump_port = "2200".to_string();
    f.jump_user = "ops".to_string();
    let t = tunnel_from_form(&f, Language::En, "id").unwrap();
    assert_eq!(t.jump_port, Some(2200));
    assert_eq!(t.jump_host.as_deref(), Some("bastion"));
    assert_eq!(
        t.forward,
        ForwardSpec::Socks5 { listen: Endpoint { host: "127.0.0.1".to_string(), port: 5432 } }
    );
}

#[test]
fn numbers_are_checked_in_order() {
    let mut f = form();
    f.listen_port = "0".to_string();
    f.ssh_port = "x".to_string();
    assert_eq!(
        tunnel_from_form(&f, Language::En, "id").unwrap_err().message,
        "Listen port must be a port from 1 to 65535"
    );
    f.listen_port = "80".to_string();
    assert_eq!(
        tunnel_from_form(&f, Language::Zh, "id").unwrap_err().message,
        "SSH 端口必须是 1–65535 的端口"
    );
    f.ssh_port = "22".to_string();
    f.retry_interval = "-1".to_string();
    let e = tunnel_from_form(&f, Language::En, "id").unwrap_err();
    assert_eq!(e.message, "Retry interval must be a non-negative integer");
    assert!(e.open_advanced);
}

#[test]
fn the_tunnel_check_runs_last() {
    let mut f = form();
    f.listen_host = " ".to_string();
    let e = tunnel_from_form(&f, Language::En, "id").unwrap_err();
    assert_eq!(e.message, "Complete the required fields: Local listen address");
    let mut f = form();
    f.ssh_user = "x".to_string();
    f.target_host = "db".to_string();
    f.retry_count = "+4".to_string();
    let t = tunnel_from_form(&f, Language::En, "id").unwrap();
    assert_eq!(t.retry_count, 4);
    f.jump_enabled = true;
    f.jump_host_id = Some("saved".to_string());
    let e = tunnel_from_form(&f, Language::En, "id").unwrap_err();
    assert_eq!(e.message, "Tunnel 'Database' jump host is required");
    assert!(!e.open_advanced);
}

#[test]
fn new_tunnels_reconnect_by_default() {
    let f = form_values_for(None);
    assert!(f.auto_reconnect);
    assert!(f.start_with_app);
    assert!(f.start_after_save);
    assert_eq!(f.kind, ForwardKind::Local);
    assert_eq!(f.ssh_port, "22");
    assert_eq!(f.listen_port, "5432");
    assert_eq!(f.retry_count, "3");
    assert_eq!(f.retry_interval, "5");
}

#[test]
fn an_unchanged_saved_tunnel_saves_as_itself() {
    let saved = tunnel_from_form(&form(), Language::En, "id-1").unwrap();
    let reopened = form_values_for(Some(&saved));
    assert!(!reopened.start_after_save);
    assert_eq!(reopened.editing_id.as_deref(), Some("id-1"));
    assert_eq!(reopened.target_port, "5432");
    let again = tunnel_from_form(&reopened, Language::En, "other").unwrap();
    assert_eq!(again, saved);
}

#[test]
fn picking_an_ssh_host_fills_the_chosen_fields() {
    let host = SshHostConfig {
        host: "prod".to_string(),
        host_name: Some("prod.example.com".to_string()),
        user: Some("admin".to_string()),
        port: Some(2222),
        identity_file: None,
    };
    let mut f = form();
    apply_ssh_host(&mut f, &host, SshPickerTarget::Primary);
    assert_eq!(f.ssh_host, "prod.example.com");
    assert_eq!(f.ssh_port, "2222");
    assert_eq!(f.ssh_user, "admin");
    assert_eq!(f.identity_file, "");
    assert_eq!(f.jump_host, "");

    let mut f = form();
    f.jump_host_id = Some("saved".to_string());
    let alias_only = SshHostConfig { host: "jump".to_string(), ..Default::default() };
    apply_ssh_host(&mut f, &alias_only, SshPickerTarget::JumpHost);
    assert_eq!(f.jump_host_id, None);
    assert_eq!(f.jump_host, "jump");
    assert_eq!(f.jump_port, "22");
    assert_eq!(f.ssh_host, "ssh.example.com");
}
