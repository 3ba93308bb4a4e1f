//! Launching the application at login: which login item is registered, how it is
//! switched on or off, how an older registration is migrated away on macOS, and the
//! check that the system really took the change. The registration itself is done by
//! `auto_launcher`; where the application lives (its executable, its macOS bundle)
//! is found out by the caller.

use vstd::prelude::*;
use crate::text::{owned, push_str, starts_with};
use auto_launcher::{AutoLaunchBuilder, LinuxLaunchMode, MacOSLaunchMode, WindowsEnableMode};

verus! {

/// The operating system the application runs on.
#[derive(Debug, Clone, Copy, PartialEq, Eq, Structural)]
pub enum Platform {
    MacOS,
    Windows,
    Linux,
}

/// How a macOS login item is registered.
#[derive(Debug, Clone, Copy, PartialEq, Eq, Structural)]
pub enum MacLaunchMode {
    /// A launch agent of the current user (the builder's default).
    LaunchAgentUser,
    AppleScript,
    SMAppService,
}

/// Why a login item could not be set up.
#[derive(Debug)]
pub enum LaunchBuildError {
    /// The system is too old for the requested registration, with the builder's message.
    UnsupportedOS(String),
    /// Another error, by its message.
    Other(String),
}

#[verifier::external_type_specification]
#[verifier::external_body]
pub struct ExAutoLaunch(auto_launcher::AutoLaunch);

#[verifier::external_type_specification]
#[verifier::external_body]
pub struct ExAutoLaunchBuilder(auto_launcher::AutoLaunchBuilder);

/// How a Windows login item is registered.
#[derive(Debug, Clone, Copy, PartialEq, Eq, Structural)]
pub enum WindowsMode {
    /// For all users where allowed, else for the current user (the builder's default).
    Dynamic,
    /// For the current user only.
    CurrentUser,
}

/// What a login item is built from: the settings of the builder.
#[derive(Debug)]
pub struct LaunchSpec {
    pub name: Option<String>,
    pub path: Option<String>,
    pub macos_mode: MacLaunchMode,
    pub bundle_identifiers: Option<Vec<String>>,
    pub windows_mode: WindowsMode,
    pub args: Option<Vec<String>>,
}

/// A login item's settings as values.
pub struct LaunchView {
    pub name: Option<Seq<char>>,
    pub path: Option<Seq<char>>,
    pub macos_mode: MacLaunchMode,
    pub bundle_identifiers: Option<Seq<Seq<char>>>,
    pub windows_mode: WindowsMode,
    pub args: Option<Seq<Seq<char>>>,
}

/// A list of texts as values.
pub open spec fn texts(v: Option<Vec<String>>) -> Option<Seq<Seq<char>>> {
    match v {
        Some(v) => Some(v@.map_values(|s: String| s@)),
        None => None,
    }
}

impl View for LaunchSpec {
    type V = LaunchView;

    open spec fn view(&self) -> LaunchView {
        LaunchView {
            name: crate::ssh_config::opt_view(self.name),
            path: crate::ssh_config::opt_view(self.path),
            macos_mode: self.macos_mode,
            bundle_identifiers: texts(self.bundle_identifiers),
            windows_mode: self.windows_mode,
            args: texts(self.args),
        }
    }
}

/// An `auto_launcher::AutoLaunchBuilder` with its public fields set from `spec`; the
/// extra launch-agent configuration and the Linux mode keep their defaults. The second
/// part records the settings the builder was given.
#[verifier::external_body]
fn builder_from(spec: &LaunchSpec) -> (r: (AutoLaunchBuilder, Ghost<LaunchView>))
    ensures
        r.1@ == spec@,
{
    let macos_launch_mode = match spec.macos_mode {
        MacLaunchMode::LaunchAgentUser => MacOSLaunchMode::LaunchAgentUser,
        MacLaunchMode::AppleScript => MacOSLaunchMode::AppleScript,
        MacLaunchMode::SMAppService => MacOSLaunchMode::SMAppService,
    };
    let windows_enable_mode = match spec.windows_mode { WindowsMode::Dynamic => WindowsEnableMode::Dynamic, WindowsMode::CurrentUser => WindowsEnableMode::CurrentUser };
    let (app_name, app_path, args, bundle_identifiers) = (spec.name.clone(), spec.path.clone(), spec.args.clone(), spec.bundle_identifiers.clone());
    let linux_launch_mode = LinuxLaunchMode::XdgAutostart;
    (AutoLaunchBuilder { app_name, app_path, macos_launch_mode, bundle_identifiers, agent_extra_config: None, windows_enable_mode, linux_launch_mode, args }, Ghost(spec@))
}

/// `AutoLaunchBuilder::build`: the login item, or why it cannot be had. It depends on
/// the system (its version, among others), so nothing is stated of it.
#[verifier::external_body]
fn build_launcher(builder: &auto_launcher::AutoLaunchBuilder) -> (r: Result<auto_launcher::AutoLaunch, LaunchBuildError>) {
    match builder.build() {
        Ok(launcher) => Ok(launcher),
        Err(error @ auto_launcher::Error::UnsupportedOS) => Err(LaunchBuildError::UnsupportedOS(error.to_string())),
        Err(error) => Err(LaunchBuildError::Other(error.to_string())),
    }
}

/// `AutoLaunch::is_enabled`: whether the system has the login item; it reads the
/// system's state, so nothing is stated of it.
#[verifier::external_body]
fn launcher_is_enabled(launcher: &auto_launcher::AutoLaunch) -> (r: Result<bool, String>) {
    launcher.is_enabled().map_err(|error| error.to_string())
}

/// `AutoLaunch::enable`: registers the login item with the system. The second part
/// records that the change made was an enabling; whether it succeeds depends on the
/// system and is not stated.
#[verifier::external_body]
fn launcher_enable(launcher: &auto_launcher::AutoLaunch) -> (r: (Result<(), String>, Ghost<LauncherOp>))
    ensures
        r.1@ == LauncherOp::Enable,
{
    (launcher.enable().map_err(|error| error.to_string()), Ghost(LauncherOp::Enable))
}

/// `AutoLaunch::disable`: removes the login item from the system. The second part
/// records that the change made was a disabling; whether it succeeds depends on the
/// system and is not stated.
#[verifier::external_body]
fn launcher_disable(launcher: &auto_launcher::AutoLaunch) -> (r: (Result<(), String>, Ghost<LauncherOp>))
    ensures
        r.1@ == LauncherOp::Disable,
{
    (launcher.disable().map_err(|error| error.to_string()), Ghost(LauncherOp::Disable))
}

/// The name the login item is registered under.
pub open spec fn autostart_name_spec(platform: Platform) -> Seq<char> {
    if platform == Platform::MacOS {
        "com.jiayx.tunnel-mate"@
    } else {
        "Tunnel Mate"@
    }
}

/// The name the login item is registered under: the bundle identifier on macOS, the
/// application's name elsewhere.
pub fn autostart_name(platform: Platform) -> (r: &'static str)
    ensures
        r@ == autostart_name_spec(platform),
{
    if platform == Platform::MacOS {
        "com.jiayx.tunnel-mate"
    } else {
        "Tunnel Mate"
    }
}

/// A change to the login item.
#[derive(Debug, Clone, Copy, PartialEq, Eq, Structural)]
pub enum LauncherOp {
    Enable,
    Disable,
}

/// The changes that bring a login item from `current` to `enabled`, each with the
/// message its failure is reported with. An item that is on and stays on is
/// re-registered (so that it points at the current executable and arguments).
pub open spec fn toggle_plan_spec(enabled: bool, current: bool) -> Seq<(LauncherOp, Seq<char>)> {
    if enabled && current {
        seq![(LauncherOp::Disable, "更新开机启动失败："@), (LauncherOp::Enable, "更新开机启动失败："@)]
    } else if enabled {
        seq![(LauncherOp::Enable, "启用开机启动失败："@)]
    } else if current {
        seq![(LauncherOp::Disable, "关闭开机启动失败："@)]
    } else {
        Seq::empty()
    }
}

/// The opening of the message of a failed change in a plan (all changes of one plan
/// share it).
pub open spec fn toggle_context(enabled: bool, current: bool) -> Seq<char> {
    if enabled && current {
        "更新开机启动失败："@
    } else if enabled {
        "启用开机启动失败："@
    } else {
        "关闭开机启动失败："@
    }
}

/// The changes for a login item, in order.
pub fn toggle_plan(enabled: bool, current: bool) -> (r: Vec<(LauncherOp, &'static str)>)
    ensures
        r@.map_values(|p: (LauncherOp, &'static str)| (p.0, p.1@)) == toggle_plan_spec(enabled, current),
{
    let mut r: Vec<(LauncherOp, &'static str)> = Vec::new();
    if enabled && current {
        r.push((LauncherOp::Disable, "更新开机启动失败："));
        r.push((LauncherOp::Enable, "更新开机启动失败："));
    } else if enabled {
        r.push((LauncherOp::Enable, "启用开机启动失败："));
    } else if current {
        r.push((LauncherOp::Disable, "关闭开机启动失败："));
    }
    assert(r@.map_values(|p: (LauncherOp, &'static str)| (p.0, p.1@)) =~= toggle_plan_spec(enabled, current));
    r
}

/// What the final check of a login item reports: success when the system has the
/// requested state; otherwise an error naming the failed check or the state that the
/// system did not take.
pub open spec fn verify_result_spec(actual: Result<bool, Seq<char>>, enabled: bool) -> Result<(), Seq<char>> {
    match actual {
        Err(e) => Err("检查开机启动状态失败："@ + e),
        Ok(a) => if a == enabled {
            Ok(())
        } else if enabled {
            Err("系统未能启用开机启动，请检查登录项权限后重试"@)
        } else {
            Err("系统未能关闭开机启动，请检查登录项权限后重试"@)
        },
    }
}

/// The view of a result with a text error.
pub open spec fn result_view<T>(r: Result<T, String>) -> Result<T, Seq<char>> {
    match r {
        Ok(v) => Ok(v),
        Err(e) => Err(e@),
    }
}

/// The openings of the messages a failed login-item change reports; the error text
/// of the system or of the builder follows them.
pub open spec fn failure_prefix(p: Seq<char>) -> bool {
    ||| p == "无法配置开机启动："@
    ||| p == "检查开机启动状态失败："@
    ||| p == "更新开机启动失败："@
    ||| p == "启用开机启动失败："@
    ||| p == "关闭开机启动失败："@
    ||| p == "检查旧版开机启动状态失败："@
    ||| p == "迁移旧版开机启动失败："@
}

/// A message that a failed login-item change reports: one of the openings followed by
/// an error text, or one of the fixed messages.
pub open spec fn autostart_failure(msg: Seq<char>) -> bool {
    ||| exists|p: Seq<char>, d: Seq<char>| #![trigger failure_prefix(p), p + d] failure_prefix(p) && msg == p + d
    ||| msg == "系统未能启用开机启动，请检查登录项权限后重试"@
    ||| msg == "系统未能关闭开机启动，请检查登录项权限后重试"@
    ||| msg == "请从打包后的 Tunnel Mate.app 配置开机启动"@
}

/// The outcome of bringing the login item to a state: any error is a login-item
/// failure, or the reason why the executable is unknown.
pub open spec fn sync_outcome(r: Result<(), String>, executable: Result<String, String>) -> bool {
    r is Err ==> (executable is Err && r->Err_0@ == executable->Err_0@) || autostart_failure(r->Err_0@)
}

fn prefixed(prefix: &str, detail: &str) -> (r: String)
    ensures
        r@ == prefix@ + detail@,
        failure_prefix(prefix@) ==> autostart_failure(r@),
{
    let mut s = owned(prefix);
    push_str(&mut s, detail);
    s
}

/// Judges the final check of a login item.
pub fn verify_result(actual: Result<bool, String>, enabled: bool) -> (r: Result<(), String>)
    ensures
        result_view(r) == verify_result_spec(result_view(actual), enabled),
        r is Err ==> autostart_failure(r->Err_0@),
{
    match actual {
        Err(e) => Err(prefixed("检查开机启动状态失败：", e.as_str())),
        Ok(a) => if a == enabled {
            Ok(())
        } else if enabled {
            Err(owned("系统未能启用开机启动，请检查登录项权限后重试"))
        } else {
            Err(owned("系统未能关闭开机启动，请检查登录项权限后重试"))
        },
    }
}

/// The message for a login item that could not be set up.
pub open spec fn build_error_text(e: LaunchBuildError) -> Seq<char> {
    match e {
        LaunchBuildError::UnsupportedOS(m) => "无法配置开机启动："@ + m@,
        LaunchBuildError::Other(m) => "无法配置开机启动："@ + m@,
    }
}

fn build_error(e: &LaunchBuildError) -> (r: String)
    ensures
        r@ == build_error_text(*e),
        autostart_failure(r@),
{
    match e {
        LaunchBuildError::UnsupportedOS(m) => prefixed("无法配置开机启动：", m.as_str()),
        LaunchBuildError::Other(m) => prefixed("无法配置开机启动：", m.as_str()),
    }
}

/// What happened to the login item being set: whether it is the `SMAppService`
/// item, its state read before any change (where it was read), the changes made to
/// bring it to the requested state with whether each succeeded, and its state read
/// back at the end (where the run got that far).
pub type ItemTrace = (bool, Option<bool>, Seq<(LauncherOp, bool)>, Option<Result<bool, Seq<char>>>);

/// The changes that bring a login item from `before` to `enabled`: the
/// `SMAppService` item is switched only where it differs; the others follow
/// `toggle_plan_spec`.
pub open spec fn change_plan(modern: bool, enabled: bool, before: bool) -> Seq<LauncherOp> {
    if modern {
        if enabled && !before {
            seq![LauncherOp::Enable]
        } else if !enabled && before {
            seq![LauncherOp::Disable]
        } else {
            Seq::empty()
        }
    } else {
        toggle_plan_spec(enabled, before).map_values(|p: (LauncherOp, Seq<char>)| p.0)
    }
}

/// The changes made follow `plan` in order and end at the first failure.
pub open spec fn follows_plan(changes: Seq<(LauncherOp, bool)>, plan: Seq<LauncherOp>) -> bool {
    &&& changes.len() <= plan.len()
    &&& forall|k: int| 0 <= k < changes.len() ==> (#[trigger] changes[k]).0 == plan[k]
    &&& forall|k: int| 0 <= k < changes.len() - 1 ==> (#[trigger] changes[k]).1
}

/// Every change of `plan` was made and succeeded.
pub open spec fn plan_done(changes: Seq<(LauncherOp, bool)>, plan: Seq<LauncherOp>) -> bool {
    &&& changes.len() == plan.len()
    &&& forall|k: int| 0 <= k < changes.len() ==> (#[trigger] changes[k]).1
}

/// How setting the login item went: success only where the state read back at the
/// end is the requested one, and then the result is what the final check gives; the
/// changes are those the plan asks for from the state read before, in order, ending
/// at the first failure; a plan not carried out in full is an error.
pub open spec fn item_outcome(r: Result<(), String>, t: ItemTrace, enabled: bool) -> bool {
    let (modern, before, changes, after) = t;
    &&& r is Ok ==> after == Some(Ok::<bool, Seq<char>>(enabled))
    &&& after is Some ==> result_view(r) == verify_result_spec(after->0, enabled)
    &&& match before {
        None => changes.len() == 0 && after is None,
        Some(b) => {
            &&& follows_plan(changes, change_plan(modern, enabled, b))
            &&& after is Some ==> plan_done(changes, change_plan(modern, enabled, b))
            &&& !plan_done(changes, change_plan(modern, enabled, b)) ==> r is Err
        },
    }
}

/// Reads the state of a login item back and judges it; the second part is what was
/// read.
fn verify_autostart(launcher: &auto_launcher::AutoLaunch, enabled: bool) -> (r: (
    Result<(), String>,
    Ghost<Result<bool, Seq<char>>>,
))
    ensures
        r.0 is Err ==> autostart_failure(r.0->Err_0@),
        result_view(r.0) == verify_result_spec(r.1@, enabled),
{
    let actual = launcher_is_enabled(launcher);
    let ghost seen = result_view(actual);
    let r = verify_result(actual, enabled);
    (r, Ghost(seen))
}

/// Carries out the changes that bring a login item from `current` to `enabled`;
/// the first failure ends them, with its message. The second part lists the changes
/// made, with whether each succeeded.
fn apply_toggle(launcher: &auto_launcher::AutoLaunch, enabled: bool, current: bool) -> (r: (
    Result<(), String>,
    Ghost<Seq<(LauncherOp, bool)>>,
))
    ensures
        r.0 is Err ==> autostart_failure(r.0->Err_0@),
        !enabled && !current ==> r.0 is Ok,
        r.0 is Err ==> starts_with(r.0->Err_0@, toggle_context(enabled, current)),
        follows_plan(r.1@, change_plan(false, enabled, current)),
        r.0 is Ok <==> plan_done(r.1@, change_plan(false, enabled, current)),
{
    let plan = toggle_plan(enabled, current);
    let ghost spec_plan = toggle_plan_spec(enabled, current);
    let ghost ops = change_plan(false, enabled, current);
    let ghost pv = plan@.map_values(|p: (LauncherOp, &'static str)| (p.0, p.1@));
    assert(pv.len() == plan@.len());
    assert forall|k: int| 0 <= k < plan@.len() implies failure_prefix(#[trigger] plan@[k].1@) && plan@[k].1@
        == toggle_context(enabled, current) && plan@[k].0 == ops[k] by {
        assert(pv[k] == spec_plan[k]);
        if enabled && current {
            assert(spec_plan[k].1 == "更新开机启动失败："@);
        } else if enabled {
            assert(spec_plan[k].1 == "启用开机启动失败："@);
        } else {
            assert(spec_plan[k].1 == "关闭开机启动失败："@);
        }
    }
    assert(ops.len() == plan@.len());
    assert(!enabled && !current ==> spec_plan.len() == 0);
    let ghost mut changes: Seq<(LauncherOp, bool)> = Seq::empty();
    let mut i: usize = 0;
    while i < plan.len()
        invariant
            i <= plan@.len(),
            ops.len() == plan@.len(),
            ops == change_plan(false, enabled, current),
            !enabled && !current ==> plan@.len() == 0,
            forall|k: int| 0 <= k < plan@.len() ==> failure_prefix(#[trigger] plan@[k].1@) && plan@[k].1@
                == toggle_context(enabled, current) && plan@[k].0 == ops[k],
            changes.len() == i,
            forall|k: int| 0 <= k < i ==> #[trigger] changes[k] == (ops[k], true),
        decreases plan@.len() - i,
    {
        let (op, context) = plan[i];
        let (outcome, made) = match op {
            LauncherOp::Enable => launcher_enable(launcher),
            LauncherOp::Disable => launcher_disable(launcher),
        };
        proof {
            changes = changes.push((made@, outcome is Ok));
        }
        if let Err(e) = outcome {
            let m = prefixed(context, e.as_str());
            assert(m@.subrange(0, context@.len() as int) =~= context@);
            assert(!changes.last().1);
            return (Err(m), Ghost(changes));
        }
        i += 1;
    }
    (Ok(()), Ghost(changes))
}

/// A login item that `auto_launcher` built, with the settings it was built from.
pub struct Launcher {
    item: auto_launcher::AutoLaunch,
    settings: Ghost<LaunchView>,
}

impl Launcher {
    /// The settings this login item was built from.
    pub closed spec fn launch(self) -> LaunchView {
        self.settings@
    }
}

/// Builds the login item for `spec`; the result, where there is one, was built from
/// `spec`, and a failure is the builder's error.
fn build_item(spec: &LaunchSpec) -> (r: Result<Launcher, LaunchBuildError>)
    ensures
        r is Ok ==> r->Ok_0.launch() == spec@,
{
    let (builder, settings) = builder_from(spec);
    match build_launcher(&builder) {
        Ok(item) => Ok(Launcher { item, settings }),
        Err(e) => Err(e),
    }
}

/// The `--minimized` argument, where asked for.
pub open spec fn minimized_args(start_minimized: bool) -> Option<Seq<Seq<char>>> {
    if start_minimized {
        Some(seq!["--minimized"@])
    } else {
        None
    }
}

/// The direct login item: the application's name (the bundle identifier on macOS)
/// and its executable, the bundle identifier on macOS, the current user's registry
/// on Windows, and `--minimized` where asked for.
pub open spec fn legacy_launch(platform: Platform, executable: Seq<char>, start_minimized: bool) -> LaunchView {
    LaunchView {
        name: Some(autostart_name_spec(platform)),
        path: Some(executable),
        macos_mode: MacLaunchMode::LaunchAgentUser,
        bundle_identifiers: if platform == Platform::MacOS {
            Some(seq![autostart_name_spec(platform)])
        } else {
            None
        },
        windows_mode: if platform == Platform::Windows {
            WindowsMode::CurrentUser
        } else {
            WindowsMode::Dynamic
        },
        args: minimized_args(start_minimized),
    }
}

/// The macOS login item that opens the bundle through AppleScript.
pub open spec fn traditional_launch(bundle: Seq<char>, start_minimized: bool) -> LaunchView {
    LaunchView {
        name: Some("Tunnel Mate"@),
        path: Some(bundle),
        macos_mode: MacLaunchMode::AppleScript,
        bundle_identifiers: None,
        windows_mode: WindowsMode::Dynamic,
        args: minimized_args(start_minimized),
    }
}

/// The macOS 13 login item registered with `SMAppService` for the running bundle.
pub open spec fn modern_launch() -> LaunchView {
    LaunchView {
        name: None,
        path: None,
        macos_mode: MacLaunchMode::SMAppService,
        bundle_identifiers: None,
        windows_mode: WindowsMode::Dynamic,
        args: None,
    }
}

fn minimized(start_minimized: bool) -> (r: Option<Vec<String>>)
    ensures
        texts(r) == minimized_args(start_minimized),
{
    if start_minimized {
        let mut v: Vec<String> = Vec::new();
        v.push(owned("--minimized"));
        assert(v@.map_values(|s: String| s@) =~= seq!["--minimized"@]);
        Some(v)
    } else {
        None
    }
}

/// The settings of the direct login item.
pub fn legacy_spec(platform: Platform, executable: &str, start_minimized: bool) -> (r: LaunchSpec)
    ensures
        r@ == legacy_launch(platform, executable@, start_minimized),
{
    let name = autostart_name(platform);
    let bundle_identifiers = if platform == Platform::MacOS {
        let mut v: Vec<String> = Vec::new();
        v.push(owned(name));
        assert(v@.map_values(|s: String| s@) =~= seq![autostart_name_spec(platform)]);
        Some(v)
    } else {
        None
    };
    LaunchSpec {
        name: Some(owned(name)),
        path: Some(owned(executable)),
        macos_mode: MacLaunchMode::LaunchAgentUser,
        bundle_identifiers,
        windows_mode: if platform == Platform::Windows {
            WindowsMode::CurrentUser
        } else {
            WindowsMode::Dynamic
        },
        args: minimized(start_minimized),
    }
}

/// The settings of the AppleScript login item of a bundle.
pub fn traditional_spec(bundle: &str, start_minimized: bool) -> (r: LaunchSpec)
    ensures
        r@ == traditional_launch(bundle@, start_minimized),
{
    LaunchSpec {
        name: Some(owned("Tunnel Mate")),
        path: Some(owned(bundle)),
        macos_mode: MacLaunchMode::AppleScript,
        bundle_identifiers: None,
        windows_mode: WindowsMode::Dynamic,
        args: minimized(start_minimized),
    }
}

/// The settings of the `SMAppService` login item.
pub fn modern_spec() -> (r: LaunchSpec)
    ensures
        r@ == modern_launch(),
{
    LaunchSpec {
        name: None,
        path: None,
        macos_mode: MacLaunchMode::SMAppService,
        bundle_identifiers: None,
        windows_mode: WindowsMode::Dynamic,
        args: None,
    }
}

/// The login item that starts the executable directly (the only one outside
/// macOS, the older one on macOS), started minimized if asked.
pub fn legacy_autostart(platform: Platform, executable: &str, start_minimized: bool) -> (r: Result<Launcher, String>)
    ensures
        r is Ok ==> r->Ok_0.launch() == legacy_launch(platform, executable@, start_minimized),
        r is Err ==> autostart_failure(r->Err_0@),
        r is Err ==> exists|e: LaunchBuildError| r->Err_0@ == #[trigger] build_error_text(e),
{
    let spec = legacy_spec(platform, executable, start_minimized);
    match build_item(&spec) {
        Ok(launcher) => Ok(launcher),
        Err(e) => Err(build_error(&e)),
    }
}

/// The direct login items handed to the builder: the one for the executable, where
/// it is known.
pub open spec fn legacy_handed(platform: Platform, executable: Result<String, String>, start_minimized: bool) -> Seq<
    LaunchView,
> {
    match executable {
        Ok(p) => seq![legacy_launch(platform, p@, start_minimized)],
        Err(_) => Seq::empty(),
    }
}

/// Brings the direct login item to the requested state and checks that the system
/// took it. The second part of the result lists the login items handed to the
/// builder, in order; the third what happened to the item.
pub fn sync_legacy_autostart(platform: Platform, executable: &Result<String, String>, enabled: bool, start_minimized: bool) -> (r: (
    Result<(), String>,
    Ghost<Seq<LaunchView>>,
    Ghost<ItemTrace>,
))
    ensures
        executable is Err ==> r.0 is Err && r.0->Err_0@ == executable->Err_0@,
        sync_outcome(r.0, *executable),
        r.1@ == legacy_handed(platform, *executable, start_minimized),
        item_outcome(r.0, r.2@, enabled),
        !r.2@.0,
{
    let ghost untouched: ItemTrace = (false, None, Seq::empty(), None);
    let path = match executable {
        Ok(p) => p,
        Err(e) => {
            let ghost none = Seq::<LaunchView>::empty();
            return (Err(e.clone()), Ghost(none), Ghost(untouched));
        },
    };
    let ghost handed = legacy_handed(platform, *executable, start_minimized);
    let launcher = match legacy_autostart(platform, path.as_str(), start_minimized) {
        Ok(l) => l,
        Err(e) => {
            return (Err(e), Ghost(handed), Ghost(untouched));
        },
    };
    let current = match launcher_is_enabled(&launcher.item) {
        Ok(c) => c,
        Err(e) => {
            return (Err(prefixed("检查开机启动状态失败：", e.as_str())), Ghost(handed), Ghost(untouched));
        },
    };
    let (applied, changes) = apply_toggle(&launcher.item, enabled, current);
    if let Err(e) = applied {
        return (Err(e), Ghost(handed), Ghost((false, Some(current), changes@, None)));
    }
    let (verdict, seen) = verify_autostart(&launcher.item, enabled);
    (verdict, Ghost(handed), Ghost((false, Some(current), changes@, Some(seen@))))
}

/// The macOS login item that opens the application bundle, where the application
/// runs from one.
pub fn traditional_macos_login_item(app_bundle: &Option<String>, start_minimized: bool) -> (r: Result<Option<Launcher>, String>)
    ensures
        app_bundle is None ==> r is Ok && r->Ok_0 is None,
        app_bundle is Some ==> r is Err || r->Ok_0 is Some,
        r is Ok && r->Ok_0 is Some ==> app_bundle is Some && r->Ok_0->0.launch() == traditional_launch(
            app_bundle->0@,
            start_minimized,
        ),
        r is Err ==> autostart_failure(r->Err_0@),
        r is Err ==> exists|e: LaunchBuildError| r->Err_0@ == #[trigger] build_error_text(e),
{
    let bundle = match app_bundle {
        Some(b) => b,
        None => {
            return Ok(None);
        },
    };
    let spec = traditional_spec(bundle.as_str(), start_minimized);
    match build_item(&spec) {
        Ok(launcher) => Ok(Some(launcher)),
        Err(e) => Err(build_error(&e)),
    }
}

/// Removes the older direct login item after the new one was set; if that fails, a
/// new item that this change switched on is switched off again. The second part of
/// the result lists the login items handed to the builder.
fn migrate_legacy(
    platform: Platform,
    executable: &Result<String, String>,
    start_minimized: bool,
    item: &auto_launcher::AutoLaunch,
    switched_on: bool,
) -> (r: (Result<(), String>, Ghost<Seq<LaunchView>>))
    ensures
        sync_outcome(r.0, *executable),
        executable is Err ==> r.0 is Err && r.0->Err_0@ == executable->Err_0@,
        r.1@ == legacy_handed(platform, *executable, start_minimized),
{
    let path = match executable {
        Ok(p) => p,
        Err(e) => {
            let ghost none = Seq::<LaunchView>::empty();
            return (Err(e.clone()), Ghost(none));
        },
    };
    let ghost handed = legacy_handed(platform, *executable, start_minimized);
    let legacy = match legacy_autostart(platform, path.as_str(), start_minimized) {
        Ok(l) => l,
        Err(e) => {
            return (Err(e), Ghost(handed));
        },
    };
    let legacy_enabled = match launcher_is_enabled(&legacy.item) {
        Ok(v) => v,
        Err(e) => {
            return (Err(prefixed("检查旧版开机启动状态失败：", e.as_str())), Ghost(handed));
        },
    };
    if legacy_enabled {
        if let (Err(e), _) = launcher_disable(&legacy.item) {
            if switched_on {
                let _ = launcher_disable(item);
            }
            return (Err(prefixed("迁移旧版开机启动失败：", e.as_str())), Ghost(handed));
        }
    }
    (Ok(()), Ghost(handed))
}

/// The login items a macOS release before 13 is handed: the AppleScript item of the
/// bundle, then (when that one was set) the direct item being migrated; or, without a
/// bundle, the direct item alone.
pub open spec fn pre13_handed(
    handed: Seq<LaunchView>,
    executable: Result<String, String>,
    app_bundle: Option<String>,
    start_minimized: bool,
) -> bool {
    match app_bundle {
        None => handed == legacy_handed(Platform::MacOS, executable, start_minimized),
        Some(b) => {
            ||| handed == seq![traditional_launch(b@, start_minimized)]
            ||| handed == seq![traditional_launch(b@, start_minimized)] + legacy_handed(
                Platform::MacOS,
                executable,
                start_minimized,
            )
        },
    }
}

/// The login item of macOS releases before 13: the bundle opened by AppleScript,
/// or the direct item where the application runs outside a bundle. The second part
/// of the result lists the login items handed to the builder; the third what
/// happened to the item being set (the undo of a failed migration is not in it).
pub fn sync_pre_macos_13_autostart(
    executable: &Result<String, String>,
    app_bundle: &Option<String>,
    enabled: bool,
    start_minimized: bool,
) -> (r: (Result<(), String>, Ghost<Seq<LaunchView>>, Ghost<ItemTrace>))
    ensures
        sync_outcome(r.0, *executable),
        executable is Err ==> r.0 is Err,
        executable is Err && app_bundle is None ==> r.0 is Err && r.0->Err_0@ == executable->Err_0@,
        pre13_handed(r.1@, *executable, *app_bundle, start_minimized),
        item_outcome(r.0, r.2@, enabled),
        !r.2@.0,
{
    let ghost untouched: ItemTrace = (false, None, Seq::empty(), None);
    let login_item = match traditional_macos_login_item(app_bundle, start_minimized) {
        Ok(Some(item)) => item,
        Ok(None) => {
            return sync_legacy_autostart(Platform::MacOS, executable, enabled, start_minimized);
        },
        Err(e) => {
            let ghost handed = seq![traditional_launch(app_bundle->0@, start_minimized)];
            return (Err(e), Ghost(handed), Ghost(untouched));
        },
    };
    let ghost first = seq![traditional_launch(app_bundle->0@, start_minimized)];
    let was_enabled = match launcher_is_enabled(&login_item.item) {
        Ok(v) => v,
        Err(e) => {
            return (Err(prefixed("检查开机启动状态失败：", e.as_str())), Ghost(first), Ghost(untouched));
        },
    };
    let (applied, changes) = apply_toggle(&login_item.item, enabled, was_enabled);
    if let Err(e) = applied {
        return (Err(e), Ghost(first), Ghost((false, Some(was_enabled), changes@, None)));
    }
    let (migrated, more) = migrate_legacy(
        Platform::MacOS,
        executable,
        start_minimized,
        &login_item.item,
        enabled && !was_enabled,
    );
    let ghost handed = first + more@;
    if let Err(e) = migrated {
        return (Err(e), Ghost(handed), Ghost((false, Some(was_enabled), changes@, None)));
    }
    let (verdict, seen) = verify_autostart(&login_item.item, enabled);
    (verdict, Ghost(handed), Ghost((false, Some(was_enabled), changes@, Some(seen@))))
}

/// The login items macOS is handed: with a bundle, first the `SMAppService` item,
/// then those of an older release where the system is too old, or the direct item
/// being migrated.
pub open spec fn macos_handed(
    handed: Seq<LaunchView>,
    executable: Result<String, String>,
    app_bundle: Option<String>,
    start_minimized: bool,
) -> bool {
    match app_bundle {
        None => handed.len() == 0,
        Some(b) => {
            &&& handed.len() >= 1
            &&& handed[0] == modern_launch()
            &&& {
                let rest = handed.drop_first();
                ||| rest.len() == 0
                ||| rest == legacy_handed(Platform::MacOS, executable, start_minimized)
                ||| pre13_handed(rest, executable, app_bundle, start_minimized)
            }
        },
    }
}

/// The macOS login item: registered with `SMAppService` from a bundle (only a bundled
/// application can have one), or the older kinds where the system is too old; the
/// older direct item is migrated away. The second part of the result lists the
/// login items handed to the builder; the third what happened to the item being set.
pub fn sync_macos_autostart(
    executable: &Result<String, String>,
    app_bundle: &Option<String>,
    enabled: bool,
    start_minimized: bool,
) -> (r: (Result<(), String>, Ghost<Seq<LaunchView>>, Ghost<ItemTrace>))
    ensures
        app_bundle is None ==> r.0 is Err && r.0->Err_0@ == "请从打包后的 Tunnel Mate.app 配置开机启动"@,
        sync_outcome(r.0, *executable),
        macos_handed(r.1@, *executable, *app_bundle, start_minimized),
        item_outcome(r.0, r.2@, enabled),
{
    let ghost untouched: ItemTrace = (false, None, Seq::empty(), None);
    if app_bundle.is_none() {
        let ghost none = Seq::<LaunchView>::empty();
        return (Err(owned("请从打包后的 Tunnel Mate.app 配置开机启动")), Ghost(none), Ghost(untouched));
    }
    let ghost first = seq![modern_launch()];
    let spec = modern_spec();
    let modern = match build_item(&spec) {
        Ok(launcher) => launcher,
        Err(LaunchBuildError::UnsupportedOS(_)) => {
            let (r, older, trace) = sync_pre_macos_13_autostart(executable, app_bundle, enabled, start_minimized);
            proof {
                assert((first + older@).drop_first() =~= older@);
            }
            return (r, Ghost(first + older@), trace);
        },
        Err(e) => {
            return (Err(build_error(&e)), Ghost(first), Ghost(untouched));
        },
    };
    let was_enabled = match launcher_is_enabled(&modern.item) {
        Ok(v) => v,
        Err(e) => {
            return (Err(prefixed("检查开机启动状态失败：", e.as_str())), Ghost(first), Ghost(untouched));
        },
    };
    let ghost mut changes: Seq<(LauncherOp, bool)> = Seq::empty();
    if enabled && !was_enabled {
        let (outcome, made) = launcher_enable(&modern.item);
        proof {
            changes = seq![(made@, outcome is Ok)];
        }
        if let Err(e) = outcome {
            return (Err(prefixed("启用开机启动失败：", e.as_str())), Ghost(first), Ghost((true, Some(was_enabled), changes, None)));
        }
    } else if !enabled && was_enabled {
        let (outcome, made) = launcher_disable(&modern.item);
        proof {
            changes = seq![(made@, outcome is Ok)];
        }
        if let Err(e) = outcome {
            return (Err(prefixed("关闭开机启动失败：", e.as_str())), Ghost(first), Ghost((true, Some(was_enabled), changes, None)));
        }
    }
    assert(plan_done(changes, change_plan(true, enabled, was_enabled)));
    let (migrated, more) = migrate_legacy(
        Platform::MacOS,
        executable,
        start_minimized,
        &modern.item,
        enabled && !was_enabled,
    );
    let ghost handed = first + more@;
    proof {
        assert(handed.drop_first() =~= more@);
    }
    if let Err(e) = migrated {
        return (Err(e), Ghost(handed), Ghost((true, Some(was_enabled), changes, None)));
    }
    let (verdict, seen) = verify_autostart(&modern.item, enabled);
    (verdict, Ghost(handed), Ghost((true, Some(was_enabled), changes, Some(seen@))))
}

/// Brings launch at login to the requested state: through the macOS login items on
/// macOS, through the direct item elsewhere. `executable` is the application's
/// executable (or why it is unknown); `app_bundle` the macOS bundle it runs from.
/// The second part of the result lists the login items handed to the builder, in
/// order; the third what happened to the item being set: success means the state read
/// back at the end is the requested one.
pub fn sync_autostart(
    platform: Platform,
    executable: &Result<String, String>,
    app_bundle: &Option<String>,
    enabled: bool,
    start_minimized: bool,
) -> (r: (Result<(), String>, Ghost<Seq<LaunchView>>, Ghost<ItemTrace>))
    ensures
        platform == Platform::MacOS && app_bundle is None ==> r.0 is Err && r.0->Err_0@
            == "请从打包后的 Tunnel Mate.app 配置开机启动"@,
        platform != Platform::MacOS && executable is Err ==> r.0 is Err && r.0->Err_0@ == executable->Err_0@,
        sync_outcome(r.0, *executable),
        platform == Platform::MacOS ==> macos_handed(r.1@, *executable, *app_bundle, start_minimized),
        platform != Platform::MacOS ==> r.1@ == legacy_handed(platform, *executable, start_minimized),
        item_outcome(r.0, r.2@, enabled),
        platform != Platform::MacOS ==> !r.2@.0,
{
    if platform == Platform::MacOS {
        sync_macos_autostart(executable, app_bundle, enabled, start_minimized)
    } else {
        sync_legacy_autostart(platform, executable, enabled, start_minimized)
    }
}

/// Whether an older direct login item is still to be migrated: only on macOS, for a
/// bundled application whose direct item is on.
pub fn autostart_migration_needed(platform: Platform, executable: &Result<String, String>, app_bundle: &Option<String>) -> (r: bool)
    ensures
        platform != Platform::MacOS ==> !r,
        app_bundle is None ==> !r,
        executable is Err ==> !r,
{
    if platform != Platform::MacOS || app_bundle.is_none() {
        return false;
    }
    let path = match executable {
        Ok(p) => p,
        Err(_) => {
            return false;
        },
    };
    match legacy_autostart(platform, path.as_str(), false) {
        Ok(launcher) => match launcher_is_enabled(&launcher.item) {
            Ok(v) => v,
            Err(_) => false,
        },
        Err(_) => false,
    }
}

} // verus!
