use tunnel_mate::autostart::Platform;
use tunnel_mate::config::{AppConfig, Endpoint, ForwardSpec, Group, Tunnel, TunnelStatus};
use tunnel_mate::edits::{
    editable_tunnel, group_from_form, group_with_id, is_active, remove_group, remove_tunnel,
    save_step, tunnels_equal, upsert_group, upsert_tunnel, SaveStep,
};
use tunnel_mate::i18n::Language;
use tunnel_mate::ui::{close_to_tray_title, keep_running_after_close_description, start_in_background_description};

fn tunnel(id: &str, name: &str) -> Tunnel {
    Tunnel {
        id: id.to_string(),
        name: name.to_string(),
        description: None,
        group_id: None,
        ssh_host: format!("{id}.example.com"),
        ssh_port: 22,
        ssh_user: "root".to_string(),
        ssh_identity_file: None,
        ssh_password: None,
        jump_host_enabled: false,
        jump_host_id: None,
        jump_host: None,
        jump_port: None,
        jump_user: None,
        jump_identity_file: None,
        jump_password: None,
        forward: ForwardSpec::Socks5 {
            listen: Endpoint { host: "127.0.0.1".to_string(), port: 1080 },
        },
        start_with_app: false,
        auto_reconnect: false,
        retry_count: 3,
        retry_interval: 5,
    }
}

fn group(id: &str, name: &str) -> Group {
    Group { id: id.to_string(), name: name.to_string(), description: None }
}

fn config_with(tunnels: Vec<Tunnel>, groups: Vec<Group>) -> AppConfig {
    let mut config = AppConfig::default();
    config.tunnels = tunnels;
    config.groups = groups;
    config
}

fn names(config: &AppConfig) -> Vec<String> {
    config.tunnels.iter().map(|t| t.name.clone()).collect()
}

#[test]
fn active_statuses_are_running_connecting_and_reconnecting() {
    assert!(is_active(TunnelStatus::Running));
    assert!(is_active(TunnelStatus::Connecting));
    assert!(is_active(TunnelStatus::Reconnecting));
    assert!(!is_active(TunnelStatus::Stopped));
    assert!(!is_active(TunnelStatus::Failed));
}

#[test]
fn saving_a_tunnel_replaces_the_one_with_its_id_or_appends() {
    let mut config = config_with(vec![tunnel("a", "A"), tunnel("b", "B")], Vec::new());
    upsert_tunnel(&mut config, tunnel("b", "B2"));
    assert_eq!(names(&config), vec!["A", "B2"]);
    upsert_tunnel(&mut config, tunnel("c", "C"));
    assert_eq!(names(&config), vec!["A", "B2", "C"]);
}

#[test]
fn deleting_a_tunnel_keeps_the_others_in_order() {
    let mut config = config_with(vec![tunnel("a", "A"), tunnel("b", "B"), tunnel("c", "C")], Vec::new());
    remove_tunnel(&mut config, &"b".to_string());
    assert_eq!(names(&config), vec!["A", "C"]);
    remove_tunnel(&mut config, &"missing".to_string());
    assert_eq!(names(&config), vec!["A", "C"]);
}

#[test]
fn deleting_a_group_ungroups_its_tunnels() {
    let mut a = tunnel("a", "A");
    a.group_id = Some("g1".to_string());
    let mut b = tunnel("b", "B");
    b.group_id = Some("g2".to_string());
    let mut config = config_with(vec![a, b], vec![group("g1", "One"), group("g2", "Two")]);
    remove_group(&mut config, &"g1".to_string());
    assert_eq!(config.groups, vec![group("g2", "Two")]);
    assert_eq!(config.tunnels[0].group_id, None);
    assert_eq!(config.tunnels[1].group_id, Some("g2".to_string()));
}

#[test]
fn saving_a_group_replaces_or_appends() {
    let mut config = config_with(Vec::new(), vec![group("g1", "One")]);
    upsert_group(&mut config, group("g1", "Uno"));
    upsert_group(&mut config, group("g2", "Two"));
    assert_eq!(config.groups, vec![group("g1", "Uno"), group("g2", "Two")]);
}

#[test]
fn group_forms_need_a_name() {
    assert_eq!(
        group_with_id(&None, "  ", "", Language::En, "new"),
        Err("Group name cannot be empty".to_string())
    );
    assert_eq!(
        group_with_id(&None, "", "", Language::Zh, "new"),
        Err("分组名称不能为空".to_string())
    );
    assert_eq!(
        group_with_id(&None, "Work", " ", Language::En, "new"),
        Ok(Group { id: "new".to_string(), name: "Work".to_string(), description: None })
    );
    assert_eq!(
        group_with_id(&Some("g1".to_string()), "Work", "Office hosts", Language::En, "new"),
        Ok(Group {
            id: "g1".to_string(),
            name: "Work".to_string(),
            description: Some("Office hosts".to_string()),
        })
    );
    let fresh = group_from_form(&None, "Home", "", Language::En).unwrap();
    assert_eq!(fresh.name, "Home");
    assert_eq!(fresh.id.len(), 36);
    let c: Vec<char> = fresh.id.chars().collect();
    assert_eq!((c[8], c[13], c[14], c[18], c[23]), ('-', '-', '4', '-', '-'));
}

#[test]
fn editing_a_tunnel_shows_its_jump_reference_as_manual_fields() {
    let mut jump = tunnel("jump", "Jump");
    jump.ssh_port = 2222;
    jump.ssh_user = "ops".to_string();
    jump.ssh_identity_file = Some("/keys/ops".to_string());
    let mut t = tunnel("a", "A");
    t.jump_host_enabled = true;
    t.jump_host_id = Some("jump".to_string());
    let all = vec![jump, t.clone()];
    let edited = editable_tunnel(&t, &all);
    assert_eq!(edited.jump_host_id, None);
    assert_eq!(edited.jump_host, Some("jump.example.com".to_string()));
    assert_eq!(edited.jump_port, Some(2222));
    assert_eq!(edited.jump_user, Some("ops".to_string()));
    assert_eq!(edited.jump_identity_file, Some("/keys/ops".to_string()));

    let mut dangling = tunnel("b", "B");
    dangling.jump_host_id = Some("gone".to_string());
    assert_eq!(editable_tunnel(&dangling, &all), dangling);
}

#[test]
fn setting_texts_follow_the_platform() {
    assert_eq!(
        start_in_background_description(Platform::MacOS, Language::En),
        "Start without the main window or Dock icon; show only the menu bar icon"
    );
    assert_eq!(
        start_in_background_description(Platform::Windows, Language::Zh),
        "启动后不显示主窗口，仅显示通知区域图标"
    );
    assert_eq!(
        keep_running_after_close_description(Platform::Linux, Language::En),
        "Keep running in the system tray after closing the main window; reopen from the tray"
    );
    assert_eq!(close_to_tray_title(Platform::MacOS, Language::Zh), "关闭窗口时隐藏 Dock 图标");
    assert_eq!(close_to_tray_title(Platform::Windows, Language::En), "Keep running after closing the window");
}

#[test]
fn unchanged_tunnels_close_the_form_and_active_changes_ask_first() {
    let saved = tunnel("a", "Alpha");
    let same = tunnel("a", "Alpha");
    let mut renamed = tunnel("a", "Alpha");
    renamed.name = "Renamed".to_string();
    let mut with_password = tunnel("a", "Alpha");
    with_password.ssh_password = Some("secret".to_string());
    assert!(tunnels_equal(&saved, &same));
    assert!(!tunnels_equal(&saved, &renamed));
    assert!(!tunnels_equal(&saved, &with_password));
    assert_eq!(save_step(Some(&saved), &same, true, true), SaveStep::Close);
    assert_eq!(save_step(Some(&saved), &renamed, true, true), SaveStep::Confirm);
    assert_eq!(save_step(Some(&saved), &renamed, true, false), SaveStep::Persist);
    assert_eq!(save_step(Some(&saved), &renamed, false, true), SaveStep::Persist);
    assert_eq!(save_step(None, &renamed, true, true), SaveStep::Persist);
}
