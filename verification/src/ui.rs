//! The decisions of the desktop interface that do not depend on the windowing
//! toolkit: which SSH host entry a form field refers to, which notices a timer or a
//! status change dismisses, and what the tray menu lists.

use vstd::prelude::*;
use crate::config::{Tunnel, TunnelStatus, ForwardSpec, Endpoint, Group, GlobalSettings};
use crate::ssh_auth::contains_text;
use crate::text::blank;
use crate::i18n::{Language, translated, has_prefix};
use crate::host_key_prompt::{HostKeyIssue, parse_host_key_prompt, prompt_of, prompt_view};
use crate::ssh_config::{SshHostConfig, opt_view};
use crate::autostart::Platform;
use crate::text::{trim, lower_seq, chars_of, trim_bounds, string_from, owned, push_str, decimal, decimal_string};

verus! {

/// Two texts are equal ignoring ASCII case, as `str::eq_ignore_ascii_case` compares.
pub open spec fn eq_ignore_case(a: Seq<char>, b: Seq<char>) -> bool {
    lower_seq(a) == lower_seq(b)
}

/// The entry is the one the text (trimmed, not empty) names, by its alias or by the
/// host name it resolves to, ignoring ASCII case.
pub open spec fn host_entry_matches(host: SshHostConfig, current: Seq<char>) -> bool {
    let c = trim(current);
    &&& c.len() > 0
    &&& (eq_ignore_case(host.host@, c) || match opt_view(host.host_name) {
        Some(n) => eq_ignore_case(n, c),
        None => false,
    })
}

/// Compares two texts ignoring ASCII case.
pub fn eq_ignore_ascii_case(a: &str, b: &str) -> (r: bool)
    ensures
        r == eq_ignore_case(a@, b@),
{
    let x = chars_of(a);
    let y = chars_of(b);
    if x.len() != y.len() {
        assert(lower_seq(a@).len() != lower_seq(b@).len());
        return false;
    }
    let mut i: usize = 0;
    while i < x.len()
        invariant
            i <= x@.len() == y@.len(),
            x@ == a@,
            y@ == b@,
            forall|j: int| 0 <= j < i ==> crate::text::lower(x@[j]) == crate::text::lower(y@[j]),
        decreases x@.len() - i,
    {
        let c = x[i];
        let d = y[i];
        let lc = if 'A' <= c && c <= 'Z' {
            ((c as u32) + 32) as u8 as char
        } else {
            c
        };
        let ld = if 'A' <= d && d <= 'Z' {
            ((d as u32) + 32) as u8 as char
        } else {
            d
        };
        assert(lc == crate::text::lower(c));
        assert(ld == crate::text::lower(d));
        if lc != ld {
            assert(lower_seq(a@)[i as int] != lower_seq(b@)[i as int]);
            return false;
        }
        i += 1;
    }
    assert(lower_seq(a@) =~= lower_seq(b@));
    true
}

/// Whether a host entry is the one the text of a host field refers to.
pub fn ssh_host_matches(host: &SshHostConfig, current: &str) -> (r: bool)
    ensures
        r == host_entry_matches(*host, current@),
{
    let v = chars_of(current);
    let (lo, hi) = trim_bounds(&v);
    let c = string_from(&v, lo, hi);
    if lo == hi {
        return false;
    }
    if eq_ignore_ascii_case(host.host.as_str(), c.as_str()) {
        return true;
    }
    match &host.host_name {
        Some(n) => eq_ignore_ascii_case(n.as_str(), c.as_str()),
        None => false,
    }
}

/// How long a notice stays.
#[derive(Debug, Clone, Copy, PartialEq, Eq, Structural)]
pub enum NoticeKind {
    /// Dismissed by its timer.
    Transient,
    /// Shown while an operation is under way.
    Progress,
    /// Stays until dismissed.
    Persistent,
}

/// A timer dismisses the notice only if it is still the one that started it.
pub fn notice_is_current(current_id: Option<u64>, expected_id: u64) -> (r: bool)
    ensures
        r == (current_id == Some(expected_id)),
{
    match current_id {
        Some(id) => id == expected_id,
        None => false,
    }
}

/// A status update clears a progress notice: the one about the updated tunnel, or
/// one about no particular tunnel once no start is pending.
pub open spec fn clears_on_status(
    kind: NoticeKind,
    notice_tunnel_id: Option<Seq<char>>,
    updated_tunnel_id: Seq<char>,
    has_pending_tunnels: bool,
) -> bool {
    kind == NoticeKind::Progress && match notice_tunnel_id {
        Some(id) => id == updated_tunnel_id,
        None => !has_pending_tunnels,
    }
}

/// Whether a status update of a tunnel clears the notice shown.
pub fn progress_notice_clears_on_status(
    kind: NoticeKind,
    notice_tunnel_id: Option<&str>,
    updated_tunnel_id: &str,
    has_pending_tunnels: bool,
) -> (r: bool)
    ensures
        r == clears_on_status(
            kind,
            match notice_tunnel_id {
                Some(s) => Some(s@),
                None => None,
            },
            updated_tunnel_id@,
            has_pending_tunnels,
        ),
{
    if kind != NoticeKind::Progress {
        return false;
    }
    match notice_tunnel_id {
        Some(id) => owned(id) == owned(updated_tunnel_id),
        None => !has_pending_tunnels,
    }
}

/// The icon beside a tray menu entry.
#[derive(Debug, Clone, Copy, PartialEq, Eq, Structural)]
pub enum MenuIcon {
    Home,
    Available,
    PartiallyAvailable,
    Unavailable,
    Idle,
}

/// One entry of the tray menu.
#[derive(Debug)]
pub enum TrayEntry {
    Item { id: String, label: String, enabled: bool, icon: Option<MenuIcon> },
    Separator,
}

/// A tray entry as a value.
pub enum TrayEntryView {
    Item { id: Seq<char>, label: Seq<char>, enabled: bool, icon: Option<MenuIcon> },
    Separator,
}

impl View for TrayEntry {
    type V = TrayEntryView;

    open spec fn view(&self) -> TrayEntryView {
        match self {
            TrayEntry::Item { id, label, enabled, icon } => TrayEntryView::Item {
                id: id@,
                label: label@,
                enabled: *enabled,
                icon: *icon,
            },
            TrayEntry::Separator => TrayEntryView::Separator,
        }
    }
}

/// The status recorded for a tunnel (the first record for its id), stopped where
/// none is.
pub open spec fn recorded_status(statuses: Seq<(String, TunnelStatus)>, id: Seq<char>) -> TunnelStatus
    decreases statuses.len(),
{
    if statuses.len() == 0 {
        TunnelStatus::Stopped
    } else if statuses[0].0@ == id {
        statuses[0].1
    } else {
        recorded_status(statuses.drop_first(), id)
    }
}

/// The number of tunnels whose recorded status is running.
pub open spec fn running_count(tunnels: Seq<Tunnel>, statuses: Seq<(String, TunnelStatus)>) -> nat
    decreases tunnels.len(),
{
    if tunnels.len() == 0 {
        0
    } else {
        running_count(tunnels.drop_last(), statuses) + if recorded_status(statuses, tunnels.last().id@)
            == TunnelStatus::Running {
            1nat
        } else {
            0nat
        }
    }
}

/// The label of a tunnel's status in the tray, and its icon.
pub open spec fn status_label(status: TunnelStatus, chinese: bool) -> (Seq<char>, MenuIcon) {
    match status {
        TunnelStatus::Running => (if chinese { "已连接"@ } else { "Connected"@ }, MenuIcon::Available),
        TunnelStatus::Connecting => (
            if chinese { "连接中"@ } else { "Connecting"@ },
            MenuIcon::PartiallyAvailable,
        ),
        TunnelStatus::Reconnecting => (
            if chinese { "重连中"@ } else { "Reconnecting"@ },
            MenuIcon::PartiallyAvailable,
        ),
        TunnelStatus::Failed => (if chinese { "连接失败"@ } else { "Failed"@ }, MenuIcon::Unavailable),
        TunnelStatus::Stopped => (if chinese { "未连接"@ } else { "Disconnected"@ }, MenuIcon::Idle),
    }
}

/// The tray entry of one tunnel.
pub open spec fn tunnel_entry(t: Tunnel, statuses: Seq<(String, TunnelStatus)>, chinese: bool) -> TrayEntryView {
    let (suffix, icon) = status_label(recorded_status(statuses, t.id@), chinese);
    TrayEntryView::Item {
        id: "tunnel:"@ + t.id@,
        label: t.name@ + "  ·  "@ + suffix,
        enabled: true,
        icon: Some(icon),
    }
}

/// The tray menu: open, a separator, the count of connected tunnels, each tunnel
/// with its status (or a note that there are none), a separator and quit.
pub open spec fn tray_menu(tunnels: Seq<Tunnel>, statuses: Seq<(String, TunnelStatus)>, chinese: bool) -> Seq<TrayEntryView> {
    let summary = if chinese {
        "隧道  ·  "@ + decimal(running_count(tunnels, statuses)) + "/"@ + decimal(tunnels.len()) + " 已连接"@
    } else {
        "Tunnels  ·  "@ + decimal(running_count(tunnels, statuses)) + "/"@ + decimal(tunnels.len())
            + " connected"@
    };
    let head = seq![
        TrayEntryView::Item {
            id: "show"@,
            label: if chinese { "打开 Tunnel Mate"@ } else { "Open Tunnel Mate"@ },
            enabled: true,
            icon: Some(MenuIcon::Home),
        },
        TrayEntryView::Separator,
        TrayEntryView::Item { id: "tunnels-summary"@, label: summary, enabled: false, icon: None },
    ];
    let body = if tunnels.len() == 0 {
        seq![
            TrayEntryView::Item {
                id: "empty"@,
                label: if chinese { "还没有隧道"@ } else { "No tunnels yet"@ },
                enabled: false,
                icon: None,
            },
        ]
    } else {
        tunnels.map_values(|t: Tunnel| tunnel_entry(t, statuses, chinese))
    };
    let tail = seq![
        TrayEntryView::Separator,
        TrayEntryView::Item {
            id: "quit"@,
            label: if chinese { "退出 Tunnel Mate"@ } else { "Quit Tunnel Mate"@ },
            enabled: true,
            icon: None,
        },
    ];
    head + body + tail
}

/// The recorded status of a tunnel.
pub fn status_of(statuses: &Vec<(String, TunnelStatus)>, id: &String) -> (r: TunnelStatus)
    ensures
        r == recorded_status(statuses@, id@),
{
    let mut i: usize = 0;
    assert(statuses@.subrange(0, statuses@.len() as int) =~= statuses@);
    while i < statuses.len()
        invariant
            i <= statuses@.len(),
            recorded_status(statuses@, id@) == recorded_status(
                statuses@.subrange(i as int, statuses@.len() as int),
                id@,
            ),
        decreases statuses@.len() - i,
    {
        let ghost rest = statuses@.subrange(i as int, statuses@.len() as int);
        assert(rest[0] == statuses@[i as int]);
        if statuses[i].0 == *id {
            return statuses[i].1;
        }
        assert(rest.drop_first() =~= statuses@.subrange(i + 1, statuses@.len() as int));
        i += 1;
    }
    TunnelStatus::Stopped
}

fn item(id: &str, label: &str, enabled: bool, icon: Option<MenuIcon>) -> (r: TrayEntry)
    ensures
        r@ == (TrayEntryView::Item { id: id@, label: label@, enabled, icon }),
{
    TrayEntry::Item { id: owned(id), label: owned(label), enabled, icon }
}

/// The entries of the tray menu, for the toolkit to build the menu from.
pub fn tray_menu_entries(tunnels: &Vec<Tunnel>, statuses: &Vec<(String, TunnelStatus)>, chinese: bool) -> (r: Vec<TrayEntry>)
    requires
        tunnels@.len() < u64::MAX,
    ensures
        r@.map_values(|e: TrayEntry| e@) == tray_menu(tunnels@, statuses@, chinese),
{
    let mut entries: Vec<TrayEntry> = Vec::new();
    entries.push(
        TrayEntry::Item {
            id: owned("show"),
            label: owned(if chinese { "打开 Tunnel Mate" } else { "Open Tunnel Mate" }),
            enabled: true,
            icon: Some(MenuIcon::Home),
        },
    );
    entries.push(TrayEntry::Separator);
    let mut running: u64 = 0;
    let mut i: usize = 0;
    assert(tunnels@.subrange(0, 0) =~= Seq::<Tunnel>::empty());
    while i < tunnels.len()
        invariant
            i <= tunnels@.len() < u64::MAX,
            running == running_count(tunnels@.subrange(0, i as int), statuses@),
            running <= i,
        decreases tunnels@.len() - i,
    {
        assert(tunnels@.subrange(0, i + 1).drop_last() =~= tunnels@.subrange(0, i as int));
        if status_of(statuses, &tunnels[i].id) == TunnelStatus::Running {
            running += 1;
        }
        i += 1;
    }
    assert(tunnels@.subrange(0, tunnels@.len() as int) =~= tunnels@);
    let mut summary = owned(if chinese { "隧道  ·  " } else { "Tunnels  ·  " });
    let count = decimal_string(running);
    push_str(&mut summary, count.as_str());
    push_str(&mut summary, "/");
    let total = decimal_string(tunnels.len() as u64);
    push_str(&mut summary, total.as_str());
    push_str(&mut summary, if chinese { " 已连接" } else { " connected" });
    entries.push(TrayEntry::Item { id: owned("tunnels-summary"), label: summary, enabled: false, icon: None });
    let ghost head = entries@.map_values(|e: TrayEntry| e@);
    let ghost tm = tray_menu(tunnels@, statuses@, chinese);
    assert(head =~= tm.subrange(0, 3));
    if tunnels.len() == 0 {
        entries.push(item("empty", if chinese { "还没有隧道" } else { "No tunnels yet" }, false, None));
    } else {
        let mut j: usize = 0;
        while j < tunnels.len()
            invariant
                j <= tunnels@.len(),
                entries@.map_values(|e: TrayEntry| e@) == head + tunnels@.subrange(0, j as int).map_values(
                    |t: Tunnel| tunnel_entry(t, statuses@, chinese),
                ),
            decreases tunnels@.len() - j,
        {
            let t = &tunnels[j];
            let status = status_of(statuses, &t.id);
            let (suffix, icon) = match status {
                TunnelStatus::Running => (if chinese { "已连接" } else { "Connected" }, MenuIcon::Available),
                TunnelStatus::Connecting => (
                    if chinese { "连接中" } else { "Connecting" },
                    MenuIcon::PartiallyAvailable,
                ),
                TunnelStatus::Reconnecting => (
                    if chinese { "重连中" } else { "Reconnecting" },
                    MenuIcon::PartiallyAvailable,
                ),
                TunnelStatus::Failed => (if chinese { "连接失败" } else { "Failed" }, MenuIcon::Unavailable),
                TunnelStatus::Stopped => (if chinese { "未连接" } else { "Disconnected" }, MenuIcon::Idle),
            };
            assert((suffix@, icon) == status_label(status, chinese));
            let mut id = owned("tunnel:");
            push_str(&mut id, t.id.as_str());
            let mut label = t.name.clone();
            push_str(&mut label, "  ·  ");
            push_str(&mut label, suffix);
            let ghost before = entries@.map_values(|e: TrayEntry| e@);
            entries.push(TrayEntry::Item { id, label, enabled: true, icon: Some(icon) });
            assert(entries@.map_values(|e: TrayEntry| e@) =~= before.push(tunnel_entry(*t, statuses@, chinese)));
            assert(tunnels@.subrange(0, j + 1) =~= tunnels@.subrange(0, j as int).push(tunnels@[j as int]));
            j += 1;
            assert(entries@.map_values(|e: TrayEntry| e@) =~= head + tunnels@.subrange(0, j as int).map_values(
                |t: Tunnel| tunnel_entry(t, statuses@, chinese),
            ));
        }
        assert(tunnels@.subrange(0, tunnels@.len() as int) =~= tunnels@);
    }
    let ghost body = if tunnels@.len() == 0 {
        seq![
            TrayEntryView::Item {
                id: "empty"@,
                label: if chinese { "还没有隧道"@ } else { "No tunnels yet"@ },
                enabled: false,
                icon: None,
            },
        ]
    } else {
        tunnels@.map_values(|t: Tunnel| tunnel_entry(t, statuses@, chinese))
    };
    assert(entries@.map_values(|e: TrayEntry| e@) =~= head + body);
    entries.push(TrayEntry::Separator);
    entries.push(item("quit", if chinese { "退出 Tunnel Mate" } else { "Quit Tunnel Mate" }, true, None));
    let ghost tail = seq![
        TrayEntryView::Separator,
        TrayEntryView::Item {
            id: "quit"@,
            label: if chinese { "退出 Tunnel Mate"@ } else { "Quit Tunnel Mate"@ },
            enabled: true,
            icon: None,
        },
    ];
    assert(entries@.map_values(|e: TrayEntry| e@) =~= head + body + tail);
    assert(tm =~= head + body + tail);
    entries
}

/// What the user is asked for after a status update.
#[derive(Debug)]
pub enum AuthRequest {
    /// The passphrase of the private key.
    Passphrase,
    /// A decision on a host key: the issue, host, port, presented fingerprint and
    /// saved fingerprints.
    HostKey(HostKeyIssue, String, u16, String, Vec<String>),
}

/// What happens to the notice shown.
#[derive(Debug)]
pub enum NoticeChange {
    Keep,
    Clear,
    Show(String),
}

/// The interface's reaction to a status update of a tunnel.
#[derive(Debug)]
pub struct StatusReaction {
    pub auth: Option<AuthRequest>,
    pub notice: NoticeChange,
    /// The tunnel stopped to be started again: start it now.
    pub restart: bool,
}

/// The status message asks for the key's passphrase.
pub open spec fn asks_passphrase(message: Option<Seq<char>>) -> bool {
    message == Some("PASSPHRASE_REQUIRED"@)
}

/// The status message needs the user: a passphrase or a host key decision.
pub open spec fn needs_intervention(message: Option<Seq<char>>) -> bool {
    match message {
        Some(m) => asks_passphrase(message) || prompt_of(m) is Some,
        None => false,
    }
}

/// The reaction to a status update: what to ask the user, what to do to the notice,
/// and whether to start the tunnel again.
pub open spec fn reaction_matches(
    r: StatusReaction,
    message: Option<Seq<char>>,
    status: TunnelStatus,
    restart_pending: bool,
    language: Language,
) -> bool {
    &&& match r.auth {
        Some(AuthRequest::Passphrase) => asks_passphrase(message),
        Some(AuthRequest::HostKey(issue, host, port, fingerprint, saved)) => !asks_passphrase(message)
            && message is Some && prompt_view(Some((issue, host, port, fingerprint, saved))) == prompt_of(
            message->0,
        ),
        None => !needs_intervention(message),
    }
    &&& match r.notice {
        NoticeChange::Clear => status == TunnelStatus::Running || status == TunnelStatus::Stopped,
        NoticeChange::Show(text) => status == TunnelStatus::Failed && !needs_intervention(message)
            && message is Some && text@ == translated(language, message->0),
        NoticeChange::Keep => status != TunnelStatus::Running && status != TunnelStatus::Stopped && !(
        status == TunnelStatus::Failed && !needs_intervention(message) && message is Some),
    }
    &&& r.restart == (status == TunnelStatus::Stopped && restart_pending)
}

/// How the interface reacts to a status update of a tunnel; `restart_pending` says
/// that the tunnel was stopped in order to be started again.
pub fn status_reaction(message: Option<&str>, status: TunnelStatus, restart_pending: bool, language: Language) -> (r: StatusReaction)
    ensures
        reaction_matches(
            r,
            match message {
                Some(m) => Some(m@),
                None => None,
            },
            status,
            restart_pending,
            language,
        ),
{
    let mut auth: Option<AuthRequest> = None;
    let mut intervention = false;
    if let Some(m) = message {
        if owned(m) == owned("PASSPHRASE_REQUIRED") {
            intervention = true;
            auth = Some(AuthRequest::Passphrase);
        } else {
            match parse_host_key_prompt(m) {
                Some((issue, host, port, fingerprint, saved)) => {
                    intervention = true;
                    auth = Some(AuthRequest::HostKey(issue, host, port, fingerprint, saved));
                },
                None => {},
            }
        }
    }
    let notice = match status {
        TunnelStatus::Running | TunnelStatus::Stopped => NoticeChange::Clear,
        TunnelStatus::Failed => {
            if intervention {
                NoticeChange::Keep
            } else {
                match message {
                    Some(m) => NoticeChange::Show(language.runtime_message(m)),
                    None => NoticeChange::Keep,
                }
            }
        },
        _ => NoticeChange::Keep,
    };
    StatusReaction { auth, notice, restart: status == TunnelStatus::Stopped && restart_pending }
}

/// `“<name>”操作失败：<message>` or `Operation failed for “<name>”: <message>`.
pub open spec fn operation_failed_text(language: Language, name: Seq<char>, message: Seq<char>) -> Seq<char> {
    if language == Language::Zh {
        "“"@ + name + "”操作失败："@ + translated(language, message)
    } else {
        "Operation failed for “"@ + name + "”: "@ + message
    }
}

/// The notice for an operation on a tunnel that failed.
pub fn operation_failed_notice(language: Language, tunnel_name: &str, message: &str) -> (r: String)
    ensures
        r@ == operation_failed_text(language, tunnel_name@, message@),
{
    if language == Language::Zh {
        let mut s = owned("“");
        push_str(&mut s, tunnel_name);
        push_str(&mut s, "”操作失败：");
        let m = language.runtime_message(message);
        push_str(&mut s, m.as_str());
        s
    } else {
        let mut s = owned("Operation failed for “");
        push_str(&mut s, tunnel_name);
        push_str(&mut s, "”: ");
        push_str(&mut s, message);
        s
    }
}

/// The notice for a tunnel that could not be deleted because stopping it failed.
pub open spec fn delete_failed_text(language: Language, name: Seq<char>, message: Seq<char>) -> Seq<char> {
    if language == Language::Zh {
        "无法删除“"@ + name + "”：停止连接失败："@ + translated(language, message)
    } else {
        "Could not delete “"@ + name + "” because stopping it failed: "@ + message
    }
}

/// The notice for a deletion that failed.
pub fn delete_failed_notice(language: Language, tunnel_name: &str, message: &str) -> (r: String)
    ensures
        r@ == delete_failed_text(language, tunnel_name@, message@),
{
    if language == Language::Zh {
        let mut s = owned("无法删除“");
        push_str(&mut s, tunnel_name);
        push_str(&mut s, "”：停止连接失败：");
        let m = language.runtime_message(message);
        push_str(&mut s, m.as_str());
        s
    } else {
        let mut s = owned("Could not delete “");
        push_str(&mut s, tunnel_name);
        push_str(&mut s, "” because stopping it failed: ");
        push_str(&mut s, message);
        s
    }
}

/// The notice after a configuration was imported, which starts `auto_started`
/// tunnels.
pub open spec fn import_text(language: Language, auto_started: nat) -> Seq<char> {
    if auto_started == 0 {
        if language == Language::Zh {
            "配置已导入并保存"@
        } else {
            "Configuration imported and saved"@
        }
    } else if language == Language::Zh {
        "配置已导入，正在自动连接 "@ + decimal(auto_started) + " 个隧道"@
    } else {
        "Configuration imported; connecting "@ + decimal(auto_started) + " tunnel(s)"@
    }
}

/// The notice after an import.
pub fn import_notice(language: Language, auto_started: u64) -> (r: String)
    ensures
        r@ == import_text(language, auto_started as nat),
{
    if auto_started == 0 {
        owned(language.pick("配置已导入并保存", "Configuration imported and saved"))
    } else {
        let mut s = owned(
            if language == Language::Zh {
                "配置已导入，正在自动连接 "
            } else {
                "Configuration imported; connecting "
            },
        );
        let n = decimal_string(auto_started);
        push_str(&mut s, n.as_str());
        push_str(&mut s, if language == Language::Zh { " 个隧道" } else { " tunnel(s)" });
        s
    }
}

/// A status that means the tunnel is in use.
pub open spec fn in_use(status: TunnelStatus) -> bool {
    status == TunnelStatus::Running || status == TunnelStatus::Connecting || status
        == TunnelStatus::Reconnecting
}

/// Importing a configuration needs the user's confirmation while a tunnel is in use.
pub fn import_needs_confirmation(statuses: &Vec<(String, TunnelStatus)>) -> (r: bool)
    ensures
        r == exists|i: int| 0 <= i < statuses@.len() && in_use(#[trigger] statuses@[i].1),
{
    let mut i: usize = 0;
    while i < statuses.len()
        invariant
            i <= statuses@.len(),
            forall|j: int| 0 <= j < i ==> !in_use(#[trigger] statuses@[j].1),
        decreases statuses@.len() - i,
    {
        let st = statuses[i].1;
        if st == TunnelStatus::Running || st == TunnelStatus::Connecting || st == TunnelStatus::Reconnecting {
            assert(in_use(statuses@[i as int].1));
            return true;
        }
        i += 1;
    }
    false
}

/// What a tray menu entry asks for.
#[derive(Debug)]
pub enum TrayCommand {
    Show,
    Quit,
    /// Start or stop the tunnel with this id.
    Toggle(String),
    Ignore,
}

/// `s` without all leading repetitions of `prefix`.
pub open spec fn strip_all_prefixes(s: Seq<char>, prefix: Seq<char>) -> Seq<char>
    decreases s.len(),
{
    if prefix.len() > 0 && crate::text::starts_with(s, prefix) {
        strip_all_prefixes(s.subrange(prefix.len() as int, s.len() as int), prefix)
    } else {
        s
    }
}

/// The command of a tray menu entry id.
pub open spec fn tray_command_of(id: Seq<char>) -> (TrayCommand, Option<Seq<char>>) {
    if id == "show"@ {
        (TrayCommand::Show, None)
    } else if id == "quit"@ {
        (TrayCommand::Quit, None)
    } else if crate::text::starts_with(id, "tunnel:"@) {
        (TrayCommand::Ignore, Some(strip_all_prefixes(id, "tunnel:"@)))
    } else {
        (TrayCommand::Ignore, None)
    }
}

/// Whether `v[lo..]` begins with `p`.
fn starts_with_from(v: &Vec<char>, lo: usize, p: &Vec<char>) -> (r: bool)
    requires
        lo <= v@.len(),
    ensures
        r == crate::text::starts_with(v@.subrange(lo as int, v@.len() as int), p@),
        r ==> lo + p@.len() <= v@.len(),
{
    let ghost rest = v@.subrange(lo as int, v@.len() as int);
    if p.len() > v.len() - lo {
        return false;
    }
    let n = v.len();
    let mut i: usize = 0;
    while i < p.len()
        invariant
            i <= p@.len(),
            n == v@.len(),
            lo + p@.len() <= n,
            rest == v@.subrange(lo as int, v@.len() as int),
            forall|j: int| 0 <= j < i ==> v@[lo + j] == p@[j],
        decreases p@.len() - i,
    {
        let k: usize = lo + i;
        if v[k] != p[i] {
            assert(rest.subrange(0, p@.len() as int)[i as int] != p@[i as int]);
            return false;
        }
        i += 1;
    }
    assert(rest.subrange(0, p@.len() as int) =~= p@);
    true
}

/// What a click on the tray entry with this id asks for.
pub fn tray_command(id: &str) -> (r: TrayCommand)
    ensures
        id@ == "show"@ ==> r is Show,
        id@ != "show"@ && id@ == "quit"@ ==> r is Quit,
        id@ != "show"@ && id@ != "quit"@ && crate::text::starts_with(id@, "tunnel:"@) ==> r is Toggle
            && r->Toggle_0@ == strip_all_prefixes(id@, "tunnel:"@),
        id@ != "show"@ && id@ != "quit"@ && !crate::text::starts_with(id@, "tunnel:"@) ==> r is Ignore,
{
    if owned(id) == owned("show") {
        return TrayCommand::Show;
    }
    if owned(id) == owned("quit") {
        return TrayCommand::Quit;
    }
    if !has_prefix(id, "tunnel:") {
        return TrayCommand::Ignore;
    }
    let v = chars_of(id);
    let p = chars_of("tunnel:");
    proof {
        reveal_strlit("tunnel:");
    }
    let mut lo: usize = 0;
    let n = v.len();
    assert(v@.subrange(0, v@.len() as int) =~= v@);
    loop
        invariant
            lo <= v@.len(),
            n == v@.len(),
            v@ == id@,
            p@ == "tunnel:"@,
            strip_all_prefixes(id@, "tunnel:"@) == strip_all_prefixes(v@.subrange(lo as int, v@.len() as int), "tunnel:"@),
        ensures
            !crate::text::starts_with(v@.subrange(lo as int, v@.len() as int), "tunnel:"@),
        decreases v@.len() - lo,
    {
        let more = starts_with_from(&v, lo, &p);
        if !more {
            break;
        }
        proof {
            reveal_strlit("tunnel:");
        }
        let ghost rest = v@.subrange(lo as int, v@.len() as int);
        assert(rest.subrange(7, rest.len() as int) =~= v@.subrange(lo + 7, v@.len() as int));
        lo += p.len();
    }
    proof {
        reveal_strlit("tunnel:");
        assert(v@.subrange(lo as int, v@.len() as int) == strip_all_prefixes(id@, "tunnel:"@));
    }
    TrayCommand::Toggle(string_from(&v, lo, v.len()))
}

/// The route of a tunnel as the list shows it.
pub open spec fn route_text(forward: ForwardSpec) -> Seq<char> {
    match forward {
        ForwardSpec::Local { listen, target } => listen.host@ + ":"@ + decimal(listen.port as nat) + "  →  "@
            + target.host@ + ":"@ + decimal(target.port as nat),
        ForwardSpec::Remote { listen, target } => listen.host@ + ":"@ + decimal(listen.port as nat) + "  ←  "@
            + target.host@ + ":"@ + decimal(target.port as nat),
        ForwardSpec::Socks5 { listen } => listen.host@ + ":"@ + decimal(listen.port as nat) + "  →  SOCKS5"@,
    }
}

fn push_endpoint(s: &mut String, e: &Endpoint)
    ensures
        final(s)@ == old(s)@ + e.host@ + ":"@ + decimal(e.port as nat),
{
    push_str(s, e.host.as_str());
    push_str(s, ":");
    let p = decimal_string(e.port as u64);
    push_str(s, p.as_str());
}

/// The route of a tunnel: listen address, an arrow in the direction of the traffic,
/// and the target (or `SOCKS5`).
pub fn route(tunnel: &Tunnel) -> (r: String)
    ensures
        r@ == route_text(tunnel.forward),
{
    let mut s = String::new();
    match &tunnel.forward {
        ForwardSpec::Local { listen, target } => {
            push_endpoint(&mut s, listen);
            push_str(&mut s, "  →  ");
            push_endpoint(&mut s, target);
        },
        ForwardSpec::Remote { listen, target } => {
            push_endpoint(&mut s, listen);
            push_str(&mut s, "  ←  ");
            push_endpoint(&mut s, target);
        },
        ForwardSpec::Socks5 { listen } => {
            push_endpoint(&mut s, listen);
            push_str(&mut s, "  →  SOCKS5");
        },
    }
    s
}

/// The text `str::to_lowercase` gives (full Unicode lowercasing).
pub uninterp spec fn lowercase_text(s: Seq<char>) -> Seq<char>;

/// `str::to_lowercase`; the result is a function of the text alone.
#[verifier::external_body]
fn to_lowercase(s: &str) -> (r: String)
    ensures
        r@ == lowercase_text(s@),
{
    s.to_lowercase()
}

/// Which tunnels the list shows.
#[derive(Debug)]
pub enum TunnelFilter {
    All,
    Active,
    Activity,
    Group(String),
}

/// A tunnel is listed under a filter and a search text (trimmed, lowercased): it
/// belongs to the filter, and its name, SSH host or route holds the search text.
pub open spec fn listed(
    t: Tunnel,
    filter: TunnelFilter,
    statuses: Seq<(String, TunnelStatus)>,
    query: Seq<char>,
) -> bool {
    let q = lowercase_text(trim(query));
    let in_filter = match filter {
        TunnelFilter::All => true,
        TunnelFilter::Active => in_use(recorded_status(statuses, t.id@)),
        TunnelFilter::Activity => false,
        TunnelFilter::Group(g) => opt_view(t.group_id) == Some(g@),
    };
    in_filter && (q.len() == 0 || contains_text(lowercase_text(t.name@), q) || contains_text(
        lowercase_text(t.ssh_host@),
        q,
    ) || contains_text(lowercase_text(route_text(t.forward)), q))
}

fn holds_text(s: &String, needle: &String) -> (r: bool)
    ensures
        r == contains_text(s@, needle@),
{
    let v = chars_of(s.as_str());
    let n = chars_of(needle.as_str());
    let len = v.len();
    if n.len() > len {
        return false;
    }
    let last = len - n.len();
    let mut i: usize = 0;
    while i <= last
        invariant
            i <= last,
            last + n@.len() == len,
            len == v@.len(),
            v@ == s@,
            n@ == needle@,
            forall|k: int| 0 <= k < i ==> #[trigger] v@.subrange(k, k + n@.len()) != n@,
        ensures
            forall|k: int| 0 <= k <= last ==> #[trigger] v@.subrange(k, k + n@.len()) != n@,
        decreases last + 1 - i,
    {
        let mut j: usize = 0;
        let mut same = true;
        while j < n.len()
            invariant
                j <= n@.len(),
                i <= last,
                last + n@.len() == len,
                len == v@.len(),
                same == forall|m: int| 0 <= m < j ==> v@[i + m] == n@[m],
            decreases n@.len() - j,
        {
            if v[i + j] != n[j] {
                same = false;
            }
            j += 1;
        }
        if same {
            assert(v@.subrange(i as int, i + n@.len()) =~= n@);
            return true;
        }
        assert(v@.subrange(i as int, i + n@.len()) != n@) by {
            let m = choose|m: int| 0 <= m < n@.len() && v@[i + m] != n@[m];
            assert(v@.subrange(i as int, i + n@.len())[m] == v@[i + m]);
        }
        if i == last {
            break;
        }
        i += 1;
    }
    false
}

/// The tunnels the list shows, in order.
pub fn filtered_tunnels(
    tunnels: &Vec<Tunnel>,
    filter: &TunnelFilter,
    statuses: &Vec<(String, TunnelStatus)>,
    query: &str,
) -> (r: Vec<usize>)
    ensures
        forall|i: int| 0 <= i < r@.len() ==> r@[i] < tunnels@.len(),
        forall|i: int, j: int| 0 <= i < j < r@.len() ==> r@[i] < r@[j],
        forall|k: int|
            0 <= k < tunnels@.len() ==> (listed(tunnels@[k], *filter, statuses@, query@) <==> r@.contains(
                k as usize,
            )),
{
    let q = to_lowercase(crate::text::trimmed(query).as_str());
    let qv = chars_of(q.as_str());
    let mut r: Vec<usize> = Vec::new();
    let mut i: usize = 0;
    while i < tunnels.len()
        invariant
            i <= tunnels@.len(),
            q@ == lowercase_text(trim(query@)),
            qv@ == q@,
            forall|x: int| 0 <= x < r@.len() ==> r@[x] < i,
            forall|x: int, y: int| 0 <= x < y < r@.len() ==> r@[x] < r@[y],
            forall|k: int|
                0 <= k < i ==> (listed(tunnels@[k], *filter, statuses@, query@) <==> r@.contains(k as usize)),
        decreases tunnels@.len() - i,
    {
        let t = &tunnels[i];
        let in_filter = match filter {
            TunnelFilter::All => true,
            TunnelFilter::Active => {
                let st = status_of(statuses, &t.id);
                st == TunnelStatus::Running || st == TunnelStatus::Connecting || st == TunnelStatus::Reconnecting
            },
            TunnelFilter::Activity => false,
            TunnelFilter::Group(g) => match &t.group_id {
                Some(id) => *id == *g,
                None => false,
            },
        };
        let matches = in_filter && (qv.len() == 0 || holds_text(&to_lowercase(t.name.as_str()), &q) || holds_text(
            &to_lowercase(t.ssh_host.as_str()),
            &q,
        ) || holds_text(&to_lowercase(route(t).as_str()), &q));
        assert(matches == listed(tunnels@[i as int], *filter, statuses@, query@));
        let ghost before = r@;
        if matches {
            r.push(i);
        }
        assert forall|k: int| 0 <= k <= i implies (listed(tunnels@[k], *filter, statuses@, query@) <==> r@.contains(
            k as usize,
        )) by {
            if k < i {
                if r@.contains(k as usize) {
                    let x = choose|x: int| 0 <= x < r@.len() && r@[x] == k as usize;
                    if matches && x == before.len() {
                    } else {
                        assert(before[x] == k as usize);
                    }
                }
                if before.contains(k as usize) {
                    let x = choose|x: int| 0 <= x < before.len() && before[x] == k as usize;
                    assert(r@[x] == k as usize);
                }
            } else {
                if matches {
                    assert(r@[before.len() as int] == i);
                } else if r@.contains(k as usize) {
                    let x = choose|x: int| 0 <= x < r@.len() && r@[x] == k as usize;
                    assert(before[x] < i);
                }
            }
        }
        i += 1;
    }
    r
}

/// The name of a group, by id.
pub open spec fn group_named(groups: Seq<Group>, id: Seq<char>) -> Option<Seq<char>>
    decreases groups.len(),
{
    if groups.len() == 0 {
        None
    } else if groups[0].id@ == id {
        Some(groups[0].name@)
    } else {
        group_named(groups.drop_first(), id)
    }
}

fn find_group_name(groups: &Vec<Group>, id: &String) -> (r: Option<String>)
    ensures
        opt_view(r) == group_named(groups@, id@),
{
    let mut i: usize = 0;
    assert(groups@.subrange(0, groups@.len() as int) =~= groups@);
    while i < groups.len()
        invariant
            i <= groups@.len(),
            group_named(groups@, id@) == group_named(groups@.subrange(i as int, groups@.len() as int), id@),
        decreases groups@.len() - i,
    {
        let ghost rest = groups@.subrange(i as int, groups@.len() as int);
        assert(rest[0] == groups@[i as int]);
        if groups[i].id == *id {
            return Some(groups[i].name.clone());
        }
        assert(rest.drop_first() =~= groups@.subrange(i + 1, groups@.len() as int));
        i += 1;
    }
    None
}

/// The heading of the list for a filter.
pub open spec fn title_text(filter: TunnelFilter, groups: Seq<Group>, language: Language) -> Seq<char> {
    match filter {
        TunnelFilter::All => if language == Language::Zh { "隧道"@ } else { "Tunnels"@ },
        TunnelFilter::Active => if language == Language::Zh { "运行中"@ } else { "Active"@ },
        TunnelFilter::Activity => if language == Language::Zh { "活动记录"@ } else { "Activity"@ },
        TunnelFilter::Group(g) => match group_named(groups, g@) {
            Some(n) => n,
            None => if language == Language::Zh { "分组"@ } else { "Group"@ },
        },
    }
}

/// The heading of the list.
pub fn title(filter: &TunnelFilter, groups: &Vec<Group>, language: Language) -> (r: String)
    ensures
        r@ == title_text(*filter, groups@, language),
{
    match filter {
        TunnelFilter::All => owned(language.pick("隧道", "Tunnels")),
        TunnelFilter::Active => owned(language.pick("运行中", "Active")),
        TunnelFilter::Activity => owned(language.pick("活动记录", "Activity")),
        TunnelFilter::Group(g) => match find_group_name(groups, g) {
            Some(n) => n,
            None => owned(language.pick("分组", "Group")),
        },
    }
}

/// The group a tunnel is listed under.
pub fn group_name(tunnel: &Tunnel, groups: &Vec<Group>, language: Language) -> (r: String)
    ensures
        r@ == (match opt_view(tunnel.group_id) {
            Some(id) => match group_named(groups@, id) {
                Some(n) => n,
                None => if language == Language::Zh { "未分组"@ } else { "Ungrouped"@ },
            },
            None => if language == Language::Zh { "未分组"@ } else { "Ungrouped"@ },
        }),
{
    match &tunnel.group_id {
        Some(id) => match find_group_name(groups, id) {
            Some(n) => n,
            None => owned(language.pick("未分组", "Ungrouped")),
        },
        None => owned(language.pick("未分组", "Ungrouped")),
    }
}

/// A positive number of seconds, as the settings read it (`u32::from_str`, no
/// trimming).
pub open spec fn positive_seconds(text: Seq<char>) -> Option<u32> {
    match crate::tunnel_form::parse_u32(text) {
        Some(v) => if v > 0 {
            Some(v)
        } else {
            None
        },
        None => None,
    }
}

fn seconds_field(text: &String) -> (r: Option<u32>)
    ensures
        r == positive_seconds(text@),
{
    let v = chars_of(text.as_str());
    assert(v@.subrange(0, v@.len() as int) =~= v@);
    match crate::tunnel_form::parse_count(&v, 0, v.len()) {
        Some(n) => if n > 0 {
            Some(n)
        } else {
            None
        },
        None => None,
    }
}

/// The settings a settings form gives, or why it gives none: the keep-alive and
/// the connection timeout must be positive numbers of seconds; an SSH config path
/// is kept unless it is blank.
pub fn settings_from_form(
    launch_on_startup: bool,
    start_minimized: bool,
    close_to_tray: bool,
    keep_alive: &String,
    connect_timeout: &String,
    ssh_config_path: &String,
    language: Language,
) -> (r: Result<GlobalSettings, String>)
    ensures
        positive_seconds(keep_alive@) is None ==> r is Err && r->Err_0@ == (if language == Language::Zh {
            "保活间隔必须是大于 0 的秒数"@
        } else {
            "Keep-alive must be greater than 0 seconds"@
        }),
        positive_seconds(keep_alive@) is Some && positive_seconds(connect_timeout@) is None ==> r is Err
            && r->Err_0@ == (if language == Language::Zh {
            "连接超时必须是大于 0 的秒数"@
        } else {
            "Connection timeout must be greater than 0 seconds"@
        }),
        positive_seconds(keep_alive@) is Some && positive_seconds(connect_timeout@) is Some ==> r is Ok && {
            let s = r->Ok_0;
            &&& s.launch_on_startup == launch_on_startup
            &&& s.start_minimized == start_minimized
            &&& s.close_to_tray == close_to_tray
            &&& Some(s.keep_alive_interval) == positive_seconds(keep_alive@)
            &&& Some(s.connect_timeout) == positive_seconds(connect_timeout@)
            &&& opt_view(s.ssh_config_path) == (if blank(ssh_config_path@) {
                None
            } else {
                Some(ssh_config_path@)
            })
        },
{
    let keep = match seconds_field(keep_alive) {
        Some(v) => v,
        None => {
            return Err(owned(language.pick("保活间隔必须是大于 0 的秒数", "Keep-alive must be greater than 0 seconds")));
        },
    };
    let timeout = match seconds_field(connect_timeout) {
        Some(v) => v,
        None => {
            return Err(
                owned(language.pick("连接超时必须是大于 0 的秒数", "Connection timeout must be greater than 0 seconds")),
            );
        },
    };
    let path = if crate::text::is_blank(ssh_config_path.as_str()) {
        None
    } else {
        Some(ssh_config_path.clone())
    };
    Ok(
        GlobalSettings {
            launch_on_startup,
            start_minimized,
            close_to_tray,
            keep_alive_interval: keep,
            connect_timeout: timeout,
            ssh_config_path: path,
        },
    )
}

/// The description of the start-minimized setting: what stays visible depends on the
/// platform (the menu bar on macOS, the notification area on Windows, the system tray
/// elsewhere).
pub fn start_in_background_description(platform: Platform, language: Language) -> (r: &'static str)
    ensures
        r == match platform {
            Platform::MacOS => if language == Language::Zh {
                "启动后不显示主窗口和 Dock 图标，仅显示菜单栏图标"
            } else {
                "Start without the main window or Dock icon; show only the menu bar icon"
            },
            Platform::Windows => if language == Language::Zh {
                "启动后不显示主窗口，仅显示通知区域图标"
            } else {
                "Start without the main window; show only the notification area icon"
            },
            Platform::Linux => if language == Language::Zh {
                "启动后不显示主窗口，仅显示系统托盘图标"
            } else {
                "Start without the main window; show only the system tray icon"
            },
        },
{
    match platform {
        Platform::MacOS => language.pick(
            "启动后不显示主窗口和 Dock 图标，仅显示菜单栏图标",
            "Start without the main window or Dock icon; show only the menu bar icon",
        ),
        Platform::Windows => language.pick(
            "启动后不显示主窗口，仅显示通知区域图标",
            "Start without the main window; show only the notification area icon",
        ),
        Platform::Linux => language.pick(
            "启动后不显示主窗口，仅显示系统托盘图标",
            "Start without the main window; show only the system tray icon",
        ),
    }
}

/// The description of the keep-running-after-close setting on each platform.
pub fn keep_running_after_close_description(platform: Platform, language: Language) -> (r: &'static str)
    ensures
        r == match platform {
            Platform::MacOS => if language == Language::Zh {
                "关闭主窗口后隐藏 Dock 图标，隧道继续运行；可从菜单栏重新打开"
            } else {
                "Hide the Dock icon and keep tunnels running after closing the main window; reopen from the menu bar"
            },
            Platform::Windows => if language == Language::Zh {
                "关闭主窗口后在通知区域继续运行，隧道保持连接；可从通知区域重新打开"
            } else {
                "Keep running in the notification area after closing the main window; reopen from the notification area"
            },
            Platform::Linux => if language == Language::Zh {
                "关闭主窗口后在系统托盘继续运行，隧道保持连接；可从托盘重新打开"
            } else {
                "Keep running in the system tray after closing the main window; reopen from the tray"
            },
        },
{
    match platform {
        Platform::MacOS => language.pick(
            "关闭主窗口后隐藏 Dock 图标，隧道继续运行；可从菜单栏重新打开",
            "Hide the Dock icon and keep tunnels running after closing the main window; reopen from the menu bar",
        ),
        Platform::Windows => language.pick(
            "关闭主窗口后在通知区域继续运行，隧道保持连接；可从通知区域重新打开",
            "Keep running in the notification area after closing the main window; reopen from the notification area",
        ),
        Platform::Linux => language.pick(
            "关闭主窗口后在系统托盘继续运行，隧道保持连接；可从托盘重新打开",
            "Keep running in the system tray after closing the main window; reopen from the tray",
        ),
    }
}

/// The title of the keep-running-after-close setting: on macOS it hides the Dock icon.
pub fn close_to_tray_title(platform: Platform, language: Language) -> (r: &'static str)
    ensures
        r == if platform == Platform::MacOS {
            if language == Language::Zh {
                "关闭窗口时隐藏 Dock 图标"
            } else {
                "Hide the Dock icon when closing the window"
            }
        } else if language == Language::Zh {
            "关闭窗口后继续运行"
        } else {
            "Keep running after closing the window"
        },
{
    if platform == Platform::MacOS {
        language.pick("关闭窗口时隐藏 Dock 图标", "Hide the Dock icon when closing the window")
    } else {
        language.pick("关闭窗口后继续运行", "Keep running after closing the window")
    }
}

} // verus!
