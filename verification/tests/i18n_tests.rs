use tunnel_mate::i18n::Language;

#[test]
fn chooses_language_from_locale() {
    assert_eq!(Language::from_locale("zh-CN"), Language::Zh);
    assert_eq!(Language::from_locale("en-US"), Language::En);
    assert_eq!(Language::from_locale("ja-JP"), Language::En);
}

#[test]
fn translates_runtime_messages() {
    assert_eq!(
        Language::Zh.runtime_message("Max reconnect attempts reached"),
        "已达到最大重连次数"
    );
    assert_eq!(
        Language::En.runtime_message("Session disconnected"),
        "Session disconnected"
    );
    assert!(Language::Zh
        .runtime_message("The SSH server only supports legacy ssh-rsa (SHA-1). Enable RSA-SHA2 on the server or update its SSH software.")
        .starts_with("SSH 服务器只支持"));
}

#[test]
fn selects_chinese_only_for_chinese_system_locales() {
    assert_eq!(Language::from_locale("zh-CN"), Language::Zh);
    assert_eq!(Language::from_locale("zh_Hant_TW"), Language::Zh);
    assert_eq!(Language::from_locale("en-US"), Language::En);
}

#[test]
fn locale_prefix_is_matched_ignoring_case() {
    assert_eq!(Language::from_locale("ZH-tw"), Language::Zh);
    assert_eq!(Language::from_locale("z"), Language::En);
    assert_eq!(Language::from_locale(""), Language::En);
}

#[test]
fn system_language_honours_an_override() {
    assert_eq!(Language::system_with(Some("zh_CN.UTF-8".to_string())), Language::Zh);
    assert_eq!(Language::system_with(Some("de_DE".to_string())), Language::En);
}

#[test]
fn pick_chooses_by_language() {
    assert_eq!(Language::Zh.pick("中", "en"), "中");
    assert_eq!(Language::En.pick("中", "en"), "en");
}

#[test]
fn translates_prefixed_failures_keeping_the_cause() {
    assert_eq!(
        Language::Zh.runtime_message("SSH connection failed: refused"),
        "SSH 连接失败： refused"
    );
    assert_eq!(
        Language::Zh.runtime_message("Failed to start forwarding listeners: port in use"),
        "启动转发监听失败： port in use"
    );
    assert_eq!(
        Language::Zh.runtime_message("Tunnel is already running"),
        "隧道已经在运行或连接中"
    );
    assert_eq!(
        Language::Zh.runtime_message("Tunnel is already running or connecting"),
        "隧道已经在运行或连接中"
    );
    assert_eq!(Language::Zh.runtime_message("Tunnel operation was cancelled"), "隧道操作已取消");
    assert_eq!(Language::Zh.runtime_message("Session disconnected"), "SSH 会话已断开");
    assert_eq!(Language::Zh.runtime_message("something else"), "something else");
    assert_eq!(
        Language::En.runtime_message("SSH connection failed: refused"),
        "SSH connection failed: refused"
    );
}
