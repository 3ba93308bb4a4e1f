use tunnel_mate::config::{Endpoint, ForwardSpec, Tunnel, TunnelStatus};
use tunnel_mate::host_key_prompt::HostKeyIssue;
use tunnel_mate::i18n::Language;
use tunnel_mate::ssh_config::SshHostConfig;
use tunnel_mate::ui::{
    delete_failed_notice, import_needs_confirmation, import_notice, notice_is_current,
    operation_failed_notice, progress_notice_clears_on_status, ssh_host_matches, status_reaction,
    tray_command, tray_menu_entries, AuthRequest, MenuIcon, NoticeChange, NoticeKind, TrayCommand, TrayEntry,
};
use tunnel_mate::ui::route;
use tunnel_mate::ui::{filtered_tunnels, TunnelFilter};
use tunnel_mate::config::Group;
use tunnel_mate::ui::{group_name, title};
use tunnel_mate::ui::settings_from_form;

fn tunnel(id: &str, name: &str) -> Tunnel {
    Tunnel {
        id: id.to_string(),
        name: name.to_string(),
        description: None,
        group_id: None,
        ssh_host: "h".to_string(),
        ssh_port: 22,
        ssh_user: "u".to_string(),
        ssh_identity_file: None,
        ssh_password: None,
        jump_host_enabled: false,
        jump_host_id: None,
        jump_host: None,
        jump_port: None,
        jump_user: None,
        jump_identity_file: None,
        jump_password: None,
        forward: ForwardSpec::Socks5 {
            listen: Endpoint { host: "127.0.0.1".to_string(), port: 1080 },
        },
        start_with_app: false,
        auto_reconnect: false,
        retry_count: 0,
        retry_interval: 0,
    }
}

#[test]
fn only_dismisses_the_notice_that_started_the_timer() {
    assert!(notice_is_current(Some(7), 7));
    assert!(!notice_is_current(Some(8), 7));
    assert!(!notice_is_current(None, 7));
}

#[test]
fn status_changes_only_dismiss_the_matching_progress_notice() {
    assert!(progress_notice_clears_on_status(NoticeKind::Progress, Some("a"), "a", true));
    assert!(!progress_notice_clears_on_status(NoticeKind::Progress, Some("b"), "a", false));
    assert!(!progress_notice_clears_on_status(NoticeKind::Persistent, Some("a"), "a", false));
    assert!(!progress_notice_clears_on_status(NoticeKind::Progress, None, "a", true));
    assert!(progress_notice_clears_on_status(NoticeKind::Progress, None, "a", false));
}

#[test]
fn matches_ssh_config_alias_or_resolved_host_case_insensitively() {
    let host = SshHostConfig {
        host: "Production-DB".into(),
        host_name: Some("db.internal.example.com".into()),
        ..Default::default()
    };
    assert!(ssh_host_matches(&host, "production-db"));
    assert!(ssh_host_matches(&host, "DB.INTERNAL.EXAMPLE.COM"));
    assert!(!ssh_host_matches(&host, "other.example.com"));
    assert!(!ssh_host_matches(&host, ""));
    assert!(ssh_host_matches(&host, "  production-db  "));
    assert!(!ssh_host_matches(&host, "   "));
}

#[test]
fn tray_menu_lists_tunnels_with_their_status() {
    let tunnels = vec![tunnel("a", "Alpha"), tunnel("b", "Beta")];
    let statuses = vec![("a".to_string(), TunnelStatus::Running)];
    let entries = tray_menu_entries(&tunnels, &statuses, false);
    assert_eq!(entries.len(), 7);
    match &entries[0] {
        TrayEntry::Item { id, label, enabled, icon } => {
            assert_eq!(id, "show");
            assert_eq!(label, "Open Tunnel Mate");
            assert!(*enabled);
            assert_eq!(*icon, Some(MenuIcon::Home));
        }
        other => panic!("unexpected {:?}", other),
    }
    assert!(matches!(entries[1], TrayEntry::Separator));
    match &entries[2] {
        TrayEntry::Item { id, label, enabled, .. } => {
            assert_eq!(id, "tunnels-summary");
            assert_eq!(label, "Tunnels  ·  1/2 connected");
            assert!(!*enabled);
        }
        other => panic!("unexpected {:?}", other),
    }
    match &entries[3] {
        TrayEntry::Item { id, label, icon, .. } => {
            assert_eq!(id, "tunnel:a");
            assert_eq!(label, "Alpha  ·  Connected");
            assert_eq!(*icon, Some(MenuIcon::Available));
        }
        other => panic!("unexpected {:?}", other),
    }
    match &entries[4] {
        TrayEntry::Item { label, icon, .. } => {
            assert_eq!(label, "Beta  ·  Disconnected");
            assert_eq!(*icon, Some(MenuIcon::Idle));
        }
        other => panic!("unexpected {:?}", other),
    }
    match &entries[6] {
        TrayEntry::Item { id, label, .. } => {
            assert_eq!(id, "quit");
            assert_eq!(label, "Quit Tunnel Mate");
        }
        other => panic!("unexpected {:?}", other),
    }
}

#[test]
fn empty_tray_menu_in_chinese() {
    let entries = tray_menu_entries(&vec![], &vec![], true);
    assert_eq!(entries.len(), 6);
    match &entries[2] {
        TrayEntry::Item { label, .. } => assert_eq!(label, "隧道  ·  0/0 已连接"),
        other => panic!("unexpected {:?}", other),
    }
    match &entries[3] {
        TrayEntry::Item { id, label, enabled, .. } => {
            assert_eq!(id, "empty");
            assert_eq!(label, "还没有隧道");
            assert!(!*enabled);
        }
        other => panic!("unexpected {:?}", other),
    }
}

#[test]
fn tray_commands() {
    assert!(matches!(tray_command("show"), TrayCommand::Show));
    assert!(matches!(tray_command("quit"), TrayCommand::Quit));
    assert!(matches!(tray_command("tunnel:abc"), TrayCommand::Toggle(id) if id == "abc"));
    assert!(matches!(tray_command("tunnel:tunnel:x"), TrayCommand::Toggle(id) if id == "x"));
    assert!(matches!(tray_command("tunnels-summary"), TrayCommand::Ignore));
}

#[test]
fn status_reactions() {
    let r = status_reaction(Some("PASSPHRASE_REQUIRED"), TunnelStatus::Failed, false, Language::En);
    assert!(matches!(r.auth, Some(AuthRequest::Passphrase)));
    assert!(matches!(r.notice, NoticeChange::Keep));
    let r = status_reaction(
        Some("HOST_KEY_NOT_TRUSTED|example.com|22|SHA256:x"),
        TunnelStatus::Failed,
        false,
        Language::En,
    );
    match r.auth {
        Some(AuthRequest::HostKey(issue, host, port, fp, saved)) => {
            assert_eq!(issue, HostKeyIssue::Unknown);
            assert_eq!(host, "example.com");
            assert_eq!(port, 22);
            assert_eq!(fp, "SHA256:x");
            assert!(saved.is_empty());
        }
        other => panic!("unexpected {:?}", other),
    }
    let r = status_reaction(Some("Max reconnect attempts reached"), TunnelStatus::Failed, false, Language::Zh);
    assert!(r.auth.is_none());
    assert!(matches!(r.notice, NoticeChange::Show(m) if m == "已达到最大重连次数"));
    let r = status_reaction(None, TunnelStatus::Stopped, true, Language::En);
    assert!(matches!(r.notice, NoticeChange::Clear));
    assert!(r.restart);
    let r = status_reaction(None, TunnelStatus::Connecting, true, Language::En);
    assert!(matches!(r.notice, NoticeChange::Keep));
    assert!(!r.restart);
}

#[test]
fn notices_for_failures_and_imports() {
    assert_eq!(
        operation_failed_notice(Language::En, "Web", "boom"),
        "Operation failed for “Web”: boom"
    );
    assert_eq!(
        operation_failed_notice(Language::Zh, "Web", "Session disconnected"),
        "“Web”操作失败：SSH 会话已断开"
    );
    assert_eq!(
        delete_failed_notice(Language::En, "Web", "x"),
        "Could not delete “Web” because stopping it failed: x"
    );
    assert_eq!(import_notice(Language::En, 0), "Configuration imported and saved");
    assert_eq!(import_notice(Language::En, 2), "Configuration imported; connecting 2 tunnel(s)");
    assert_eq!(import_notice(Language::Zh, 3), "配置已导入，正在自动连接 3 个隧道");
}

#[test]
fn import_needs_confirmation_while_tunnels_are_in_use() {
    assert!(!import_needs_confirmation(&vec![("a".to_string(), TunnelStatus::Stopped)]));
    assert!(import_needs_confirmation(&vec![
        ("a".to_string(), TunnelStatus::Failed),
        ("b".to_string(), TunnelStatus::Reconnecting)
    ]));
}

#[test]
fn routes_show_the_direction_of_traffic() {
    let mut t = tunnel("a", "A");
    assert_eq!(route(&t), "127.0.0.1:1080  →  SOCKS5");
    t.forward = ForwardSpec::Local {
        listen: Endpoint { host: "127.0.0.1".to_string(), port: 5432 },
        target: Endpoint { host: "db".to_string(), port: 5432 },
    };
    assert_eq!(route(&t), "127.0.0.1:5432  →  db:5432");
    t.forward = ForwardSpec::Remote {
        listen: Endpoint { host: "0.0.0.0".to_string(), port: 8080 },
        target: Endpoint { host: "localhost".to_string(), port: 3000 },
    };
    assert_eq!(route(&t), "0.0.0.0:8080  ←  localhost:3000");
}

#[test]
fn filters_and_search_select_tunnels() {
    let mut a = tunnel("a", "Alpha DB");
    a.group_id = Some("g1".to_string());
    let mut b = tunnel("b", "Beta");
    b.ssh_host = "Bastion.Example".to_string();
    let tunnels = vec![a, b];
    let statuses = vec![("b".to_string(), TunnelStatus::Connecting)];
    assert_eq!(filtered_tunnels(&tunnels, &TunnelFilter::All, &statuses, ""), vec![0, 1]);
    assert_eq!(filtered_tunnels(&tunnels, &TunnelFilter::Active, &statuses, ""), vec![1]);
    assert!(filtered_tunnels(&tunnels, &TunnelFilter::Activity, &statuses, "").is_empty());
    assert_eq!(
        filtered_tunnels(&tunnels, &TunnelFilter::Group("g1".to_string()), &statuses, ""),
        vec![0]
    );
    assert_eq!(filtered_tunnels(&tunnels, &TunnelFilter::All, &statuses, "  bastion "), vec![1]);
    assert_eq!(filtered_tunnels(&tunnels, &TunnelFilter::All, &statuses, "DB"), vec![0]);
    assert_eq!(filtered_tunnels(&tunnels, &TunnelFilter::All, &statuses, "socks5"), vec![0, 1]);
}

#[test]
fn titles_and_group_names() {
    let groups = vec![Group { id: "g1".to_string(), name: "Prod".to_string(), description: None }];
    assert_eq!(title(&TunnelFilter::All, &groups, Language::En), "Tunnels");
    assert_eq!(title(&TunnelFilter::Active, &groups, Language::Zh), "运行中");
    assert_eq!(title(&TunnelFilter::Group("g1".to_string()), &groups, Language::En), "Prod");
    assert_eq!(title(&TunnelFilter::Group("x".to_string()), &groups, Language::En), "Group");
    let mut t = tunnel("a", "A");
    assert_eq!(group_name(&t, &groups, Language::En), "Ungrouped");
    t.group_id = Some("g1".to_string());
    assert_eq!(group_name(&t, &groups, Language::Zh), "Prod");
}

#[test]
fn settings_form_checks_its_numbers() {
    let s = settings_from_form(true, false, true, &"30".to_string(), &"10".to_string(), &" ".to_string(), Language::En)
        .unwrap();
    assert!(s.launch_on_startup && !s.start_minimized && s.close_to_tray);
    assert_eq!(s.keep_alive_interval, 30);
    assert_eq!(s.connect_timeout, 10);
    assert_eq!(s.ssh_config_path, None);
    let s = settings_from_form(false, false, false, &"5".to_string(), &"7".to_string(), &"~/.ssh/cfg".to_string(), Language::En)
        .unwrap();
    assert_eq!(s.ssh_config_path.as_deref(), Some("~/.ssh/cfg"));
    assert_eq!(
        settings_from_form(false, false, false, &"0".to_string(), &"7".to_string(), &"".to_string(), Language::En)
            .unwrap_err(),
        "Keep-alive must be greater than 0 seconds"
    );
    assert_eq!(
        settings_from_form(false, false, false, &"5".to_string(), &" 7".to_string(), &"".to_string(), Language::Zh)
            .unwrap_err(),
        "连接超时必须是大于 0 的秒数"
    );
}
