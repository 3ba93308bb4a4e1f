use tunnel_mate::ssh_config::{
    expand_home_dir, expand_home_dir_in, has_wildcard, include_regex_text, matching_include_files,
    parse_config_entries, visible_hosts, ConfigEntry, SshHostConfig,
};

fn host(name: &str) -> SshHostConfig {
    SshHostConfig {
        host: name.to_string(),
        ..Default::default()
    }
}

#[test]
fn test_expand_home_dir() {
    let path = "~/some_key";
    let expanded = expand_home_dir(path);
    if let Some(home) = dirs::home_dir() {
        assert_eq!(expanded, home.join("some_key").to_string_lossy());
    } else {
        assert_eq!(expanded, path);
    }
}

#[test]
fn home_expansion_follows_path_join() {
    let home = Some("/home/u".to_string());
    assert_eq!(expand_home_dir_in("~/k", &home), "/home/u/k");
    assert_eq!(expand_home_dir_in("~//abs", &home), "/abs");
    assert_eq!(expand_home_dir_in("~user/k", &home), "~user/k");
    assert_eq!(expand_home_dir_in("~/k", &None), "~/k");
    assert_eq!(expand_home_dir_in("~/k", &Some("/root/".to_string())), "/root/k");
}

#[test]
fn parses_host_blocks_and_includes_in_order() {
    let text = "# comment\nHost prod db\n  HostName prod.example.com\n  User = admin\n  Port 2222\n  IdentityFile \"~/.ssh/prod\"\nInclude conf.d/*\nHost *\n  Port notanumber\nhost=Other\nPORT +22\n";
    let entries = parse_config_entries(text, &Some("/home/u".to_string()));
    assert_eq!(
        entries,
        vec![
            ConfigEntry::Include("conf.d/*".to_string()),
            ConfigEntry::Host(SshHostConfig {
                host: "prod".to_string(),
                host_name: Some("prod.example.com".to_string()),
                user: Some("admin".to_string()),
                port: Some(2222),
                identity_file: Some("/home/u/.ssh/prod".to_string()),
            }),
            ConfigEntry::Host(host("*")),
            ConfigEntry::Host(SshHostConfig {
                host: "Other".to_string(),
                port: Some(22),
                ..Default::default()
            }),
        ]
    );
}

#[test]
fn settings_before_any_host_are_ignored() {
    let entries = parse_config_entries("User nobody\nPort 1\r\nHost a\r\nUser x\r\n", &None);
    assert_eq!(
        entries,
        vec![ConfigEntry::Host(SshHostConfig {
            host: "a".to_string(),
            user: Some("x".to_string()),
            ..Default::default()
        })]
    );
    assert!(parse_config_entries("", &None).is_empty());
}

#[test]
fn wildcard_and_unnamed_hosts_are_hidden() {
    let hosts = vec![host("a"), host("*"), host(""), host("b*")];
    assert_eq!(visible_hosts(&hosts), vec![host("a"), host("b*")]);
}

#[test]
fn include_patterns_become_anchored_regexes() {
    assert_eq!(include_regex_text("*.conf"), "^.*\\.conf$");
    assert_eq!(include_regex_text("host?"), "^host.$");
    assert!(has_wildcard("*.conf"));
    assert!(!has_wildcard("config"));
    let names = vec!["a.conf".to_string(), "b.txt".to_string(), "aconf".to_string()];
    assert_eq!(matching_include_files("*.conf", &names).unwrap(), vec!["a.conf".to_string()]);
    assert!(matching_include_files("conf(*", &names)
        .unwrap_err()
        .starts_with("Invalid regex pattern: "));
}
