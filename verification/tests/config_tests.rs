use tunnel_mate::config::{
    validate_config, validate_endpoint, validate_tunnel, AppConfig, Endpoint, ForwardSpec, GlobalSettings,
    Tunnel, CONFIG_VERSION,
};
use tunnel_mate::store::{
    apply_secrets, delete_outcome, join_path, persisted_form, reject_persisted_secrets, save_outcome, secret_account,
    secret_from_answer, secret_plan, secret_reads, ConfigStore, StoreError,
};

fn test_endpoint(host: &str, port: u16) -> Endpoint {
    Endpoint {
        host: host.to_string(),
        port,
    }
}

fn test_tunnel(forward: ForwardSpec) -> Tunnel {
    Tunnel {
        id: "tunnel-1".to_string(),
        name: "Database".to_string(),
        description: None,
        group_id: None,
        ssh_host: "ssh.example.com".to_string(),
        ssh_port: 22,
        ssh_user: "root".to_string(),
        ssh_identity_file: None,
        ssh_password: None,
        jump_host_enabled: false,
        jump_host_id: None,
        jump_host: None,
        jump_port: None,
        jump_user: None,
        jump_identity_file: None,
        jump_password: None,
        forward,
        start_with_app: false,
        auto_reconnect: false,
        retry_count: 3,
        retry_interval: 5,
    }
}

#[test]
fn default_config_uses_current_version() {
    assert_eq!(AppConfig::default().version, CONFIG_VERSION);
}

#[test]
fn validates_socks5_without_target() {
    let config = AppConfig {
        version: CONFIG_VERSION,
        groups: Vec::new(),
        tunnels: vec![test_tunnel(ForwardSpec::Socks5 {
            listen: test_endpoint("127.0.0.1", 1080),
        })],
        settings: GlobalSettings::default(),
    };

    assert!(validate_config(&config).is_ok());
}

#[test]
fn rejects_unsupported_config_version() {
    let config = AppConfig {
        version: CONFIG_VERSION + 1,
        groups: Vec::new(),
        tunnels: Vec::new(),
        settings: GlobalSettings::default(),
    };

    assert!(validate_config(&config)
        .unwrap_err()
        .contains("Unsupported configuration version"));
}

#[test]
fn rejects_empty_endpoint_host() {
    let endpoint = test_endpoint(" ", 8080);

    assert!(validate_endpoint(&endpoint, "listen endpoint")
        .unwrap_err()
        .contains("host is required"));
}

#[test]
fn rejects_zero_endpoint_port() {
    let endpoint = test_endpoint("127.0.0.1", 0);

    assert!(validate_endpoint(&endpoint, "listen endpoint")
        .unwrap_err()
        .contains("port is invalid"));
}

#[test]
fn version_error_names_both_versions() {
    let config = AppConfig {
        version: 7,
        groups: Vec::new(),
        tunnels: Vec::new(),
        settings: GlobalSettings::default(),
    };
    assert_eq!(
        validate_config(&config).unwrap_err(),
        "Unsupported configuration version: expected 1, got 7"
    );
}

#[test]
fn tunnel_checks_come_in_order() {
    let mut t = test_tunnel(ForwardSpec::Local {
        listen: test_endpoint("127.0.0.1", 0),
        target: test_endpoint("", 80),
    });
    assert_eq!(validate_tunnel(&t).unwrap_err(), "listen endpoint port is invalid");
    t.forward = ForwardSpec::Local {
        listen: test_endpoint("127.0.0.1", 5432),
        target: test_endpoint("  ", 80),
    };
    assert_eq!(validate_tunnel(&t).unwrap_err(), "target endpoint host is required");
    t.ssh_user = " ".to_string();
    assert_eq!(validate_tunnel(&t).unwrap_err(), "Tunnel 'Database' SSH user is required");
    t.ssh_port = 0;
    assert_eq!(validate_tunnel(&t).unwrap_err(), "Tunnel 'Database' SSH port is invalid");
    t.name = "".to_string();
    assert_eq!(validate_tunnel(&t).unwrap_err(), "Tunnel name is required");
}

#[test]
fn jump_host_fields_are_checked_when_enabled() {
    let mut t = test_tunnel(ForwardSpec::Socks5 {
        listen: test_endpoint("127.0.0.1", 1080),
    });
    t.jump_host_enabled = true;
    assert_eq!(validate_tunnel(&t).unwrap_err(), "Tunnel 'Database' jump host is required");
    t.jump_host = Some("jump".to_string());
    assert_eq!(validate_tunnel(&t).unwrap_err(), "Tunnel 'Database' jump port is invalid");
    t.jump_port = Some(22);
    assert_eq!(validate_tunnel(&t).unwrap_err(), "Tunnel 'Database' jump user is required");
    t.jump_user = Some("u".to_string());
    assert!(validate_tunnel(&t).is_ok());
}

#[test]
fn default_settings_values() {
    let s = GlobalSettings::default();
    assert_eq!(s.keep_alive_interval, 30);
    assert_eq!(s.connect_timeout, 15);
    assert!(!s.launch_on_startup && !s.start_minimized && !s.close_to_tray);
    assert_eq!(s.ssh_config_path, None);
}

#[test]
fn forward_spec_exposes_listen_and_target() {
    let f = ForwardSpec::Remote {
        listen: test_endpoint("0.0.0.0", 8080),
        target: test_endpoint("localhost", 80),
    };
    assert_eq!(f.listen(), &test_endpoint("0.0.0.0", 8080));
    assert_eq!(f.target(), Some(&test_endpoint("localhost", 80)));
    let s = ForwardSpec::Socks5 {
        listen: test_endpoint("127.0.0.1", 1080),
    };
    assert_eq!(s.target(), None);
}

#[test]
fn store_paths_and_accounts() {
    let store = ConfigStore::from_base_path("/data/TunnelMate".to_string());
    assert_eq!(store.get_config_path(), "/data/TunnelMate/config.json");
    assert_eq!(store.get_events_path(), "/data/TunnelMate/events.json");
    assert_eq!(ConfigStore::in_config_dir(Some("/cfg/".to_string())).get_config_path(), "/cfg/TunnelMate/config.json");
    assert_eq!(ConfigStore::in_config_dir(None).get_events_path(), "./TunnelMate/events.json");
    assert_eq!(secret_account("t1", "ssh_password"), "t1:ssh_password");
    assert_eq!(join_path("", "a"), "a");
    assert_eq!(join_path("/x", "a"), "/x/a");
}

#[test]
fn config_files_with_passwords_are_refused() {
    let keys = |list: &[&str]| list.iter().map(|k| k.to_string()).collect::<Vec<String>>();
    assert_eq!(reject_persisted_secrets(&None), Ok(()));
    assert_eq!(reject_persisted_secrets(&Some(vec![keys(&["id", "name"]), Vec::new()])), Ok(()));
    assert_eq!(
        reject_persisted_secrets(&Some(vec![keys(&["id"]), keys(&["id", "jumpPassword"])])),
        Err("Config file must not contain persisted SSH passwords".to_string())
    );
    assert_eq!(
        reject_persisted_secrets(&Some(vec![keys(&["sshPassword"])])),
        Err("Config file must not contain persisted SSH passwords".to_string())
    );
}

#[test]
fn persisted_configuration_holds_no_passwords() {
    let mut t = test_tunnel(ForwardSpec::Socks5 { listen: test_endpoint("127.0.0.1", 1080) });
    t.ssh_password = Some("secret".to_string());
    t.jump_password = Some("jump-secret".to_string());
    let config = AppConfig {
        version: CONFIG_VERSION,
        groups: Vec::new(),
        tunnels: vec![t.clone()],
        settings: GlobalSettings::default(),
    };
    let written = persisted_form(&config);
    assert_eq!(written.tunnels[0].ssh_password, None);
    assert_eq!(written.tunnels[0].jump_password, None);
    let mut expected = t;
    expected.ssh_password = None;
    expected.jump_password = None;
    assert_eq!(written.tunnels[0], expected);
    assert_eq!(written.version, CONFIG_VERSION);
    assert_eq!(written.settings, GlobalSettings::default());
}

#[test]
fn store_answers_give_only_non_empty_passwords() {
    assert_eq!(secret_from_answer(&Ok("hunter2".to_string())), Some("hunter2".to_string()));
    assert_eq!(secret_from_answer(&Ok(String::new())), None);
    assert_eq!(secret_from_answer(&Err(StoreError::NoEntry("none".to_string()))), None);
    assert_eq!(secret_from_answer(&Err(StoreError::Failed("locked".to_string()))), None);
}

#[test]
fn store_write_answers_become_results() {
    assert_eq!(save_outcome(&Ok(())), Ok(()));
    assert_eq!(
        save_outcome(&Err(StoreError::Failed("locked".to_string()))),
        Err("Failed to save credential: locked".to_string())
    );
    assert_eq!(
        save_outcome(&Err(StoreError::NoEntry("gone".to_string()))),
        Err("Failed to save credential: gone".to_string())
    );
    assert_eq!(delete_outcome(&Ok(())), Ok(()));
    assert_eq!(delete_outcome(&Err(StoreError::NoEntry("gone".to_string()))), Ok(()));
    assert_eq!(
        delete_outcome(&Err(StoreError::Failed("locked".to_string()))),
        Err("Failed to delete credential: locked".to_string())
    );
}

#[test]
fn passwords_are_read_from_their_own_accounts() {
    let mut second = test_tunnel(ForwardSpec::Socks5 { listen: test_endpoint("127.0.0.1", 1081) });
    second.id = "tunnel-2".to_string();
    let mut config = AppConfig {
        version: CONFIG_VERSION,
        groups: Vec::new(),
        tunnels: vec![test_tunnel(ForwardSpec::Socks5 { listen: test_endpoint("127.0.0.1", 1080) }), second],
        settings: GlobalSettings::default(),
    };
    assert_eq!(
        secret_reads(&config),
        vec![
            "tunnel-1:ssh_password".to_string(),
            "tunnel-1:jump_password".to_string(),
            "tunnel-2:ssh_password".to_string(),
            "tunnel-2:jump_password".to_string(),
        ]
    );
    let answers = vec![
        Ok("ssh-one".to_string()),
        Err(StoreError::NoEntry("none".to_string())),
        Ok(String::new()),
        Ok("jump-two".to_string()),
    ];
    apply_secrets(&mut config, &answers);
    assert_eq!(config.tunnels[0].ssh_password, Some("ssh-one".to_string()));
    assert_eq!(config.tunnels[0].jump_password, None);
    assert_eq!(config.tunnels[1].ssh_password, None);
    assert_eq!(config.tunnels[1].jump_password, Some("jump-two".to_string()));
    assert_eq!(config.tunnels[1].id, "tunnel-2");
}

#[test]
fn saving_then_loading_gives_the_configuration_back() {
    let mut first = test_tunnel(ForwardSpec::Socks5 { listen: test_endpoint("127.0.0.1", 1080) });
    first.ssh_password = Some("ssh-secret".to_string());
    first.jump_password = Some(String::new());
    let mut second = test_tunnel(ForwardSpec::Socks5 { listen: test_endpoint("127.0.0.1", 1081) });
    second.id = "tunnel-2".to_string();
    second.jump_password = Some("jump-secret".to_string());
    let config = AppConfig {
        version: CONFIG_VERSION,
        groups: Vec::new(),
        tunnels: vec![first, second],
        settings: GlobalSettings::default(),
    };
    let mut store: std::collections::HashMap<String, String> = std::collections::HashMap::new();
    store.insert("tunnel-1:jump_password".to_string(), "stale".to_string());
    for (account, value) in secret_plan(&config, None) {
        match value {
            Some(v) if !v.is_empty() => {
                store.insert(account, v);
            }
            _ => {
                store.remove(&account);
            }
        }
    }
    let mut loaded = persisted_form(&config);
    let answers: Vec<Result<String, StoreError>> = secret_reads(&loaded)
        .iter()
        .map(|account| match store.get(account) {
            Some(v) => Ok(v.clone()),
            None => Err(StoreError::NoEntry("none".to_string())),
        })
        .collect();
    apply_secrets(&mut loaded, &answers);
    let mut expected: Vec<Tunnel> = config.tunnels.iter().map(|t| t.clone()).collect();
    expected[0].jump_password = None;
    assert_eq!(loaded.tunnels, expected);
    assert_eq!(loaded.version, config.version);
    assert_eq!(loaded.groups, config.groups);
    assert_eq!(loaded.settings, config.settings);
}
