use tunnel_mate::autostart::{
    autostart_migration_needed, autostart_name, legacy_spec, modern_spec, sync_autostart, toggle_plan, traditional_spec,
    verify_result, LauncherOp, MacLaunchMode, Platform, WindowsMode,
};

#[test]
fn toggle_plans_re_register_an_enabled_item() {
    assert_eq!(
        toggle_plan(true, true),
        vec![(LauncherOp::Disable, "更新开机启动失败："), (LauncherOp::Enable, "更新开机启动失败：")]
    );
    assert_eq!(toggle_plan(true, false), vec![(LauncherOp::Enable, "启用开机启动失败：")]);
    assert_eq!(toggle_plan(false, true), vec![(LauncherOp::Disable, "关闭开机启动失败：")]);
    assert!(toggle_plan(false, false).is_empty());
}

#[test]
fn final_checks_report_what_the_system_did() {
    assert_eq!(verify_result(Ok(true), true), Ok(()));
    assert_eq!(
        verify_result(Ok(false), true),
        Err("系统未能启用开机启动，请检查登录项权限后重试".to_string())
    );
    assert_eq!(
        verify_result(Ok(true), false),
        Err("系统未能关闭开机启动，请检查登录项权限后重试".to_string())
    );
    assert_eq!(
        verify_result(Err("denied".to_string()), false),
        Err("检查开机启动状态失败：denied".to_string())
    );
}

#[test]
fn names_and_early_failures() {
    assert_eq!(autostart_name(Platform::MacOS), "com.jiayx.tunnel-mate");
    assert_eq!(autostart_name(Platform::Linux), "Tunnel Mate");
    assert_eq!(
        sync_autostart(Platform::MacOS, &Ok("/x".to_string()), &None, true, false).0,
        Err("请从打包后的 Tunnel Mate.app 配置开机启动".to_string())
    );
    assert_eq!(
        sync_autostart(Platform::Linux, &Err("无法确定应用路径：gone".to_string()), &None, true, false).0,
        Err("无法确定应用路径：gone".to_string())
    );
    assert!(!autostart_migration_needed(Platform::Linux, &Ok("/x".to_string()), &Some("/A.app".to_string())));
    assert!(!autostart_migration_needed(Platform::MacOS, &Ok("/x".to_string()), &None));
}

#[test]
fn login_items_are_built_from_the_application_settings() {
    let linux = legacy_spec(Platform::Linux, "/opt/tm/tunnel-mate", true);
    assert_eq!(linux.name, Some("Tunnel Mate".to_string()));
    assert_eq!(linux.path, Some("/opt/tm/tunnel-mate".to_string()));
    assert_eq!(linux.args, Some(vec!["--minimized".to_string()]));
    assert_eq!(linux.bundle_identifiers, None);
    assert_eq!(linux.windows_mode, WindowsMode::Dynamic);
    let windows = legacy_spec(Platform::Windows, "C:\\TM.exe", false);
    assert_eq!(windows.windows_mode, WindowsMode::CurrentUser);
    assert_eq!(windows.args, None);
    let mac = legacy_spec(Platform::MacOS, "/Applications/TM.app/Contents/MacOS/tm", false);
    assert_eq!(mac.name, Some("com.jiayx.tunnel-mate".to_string()));
    assert_eq!(mac.bundle_identifiers, Some(vec!["com.jiayx.tunnel-mate".to_string()]));
    assert_eq!(mac.macos_mode, MacLaunchMode::LaunchAgentUser);
    let apple = traditional_spec("/Applications/TM.app", true);
    assert_eq!(apple.name, Some("Tunnel Mate".to_string()));
    assert_eq!(apple.macos_mode, MacLaunchMode::AppleScript);
    assert_eq!(modern_spec().macos_mode, MacLaunchMode::SMAppService);
    assert_eq!(modern_spec().name, None);
}
