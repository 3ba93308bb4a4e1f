//! The course of a diagnostics run: which check comes next and what each outcome
//! adds to the report. The caller performs each requested check and reports back.

use vstd::prelude::*;
use crate::config::{ForwardSpec, Tunnel};
use crate::diagnostics::{
    DiagnosticEndpoint, DiagnosticLanguage, DiagnosticStep, DiagnosticTarget, diagnostic_target_spec,
    error, jump_config_matches, label, pick, resolve_diagnostic_target, resolve_forward_tcp_check,
    resolve_jump_config, resolve_local_bind_check, resolve_remote_listener, step_view, success,
    warning,
};
use crate::text::{decimal, decimal_string, owned, push_str};

verus! {

/// The check a run is waiting on.
#[derive(Debug, Clone, Copy, PartialEq, Eq, Structural)]
pub enum DiagnosticPhase {
    ListenerBind,
    ForwardLookup,
    ForwardConnect,
    TargetLookup,
    TargetConnect,
    Authenticate,
    Done,
}

/// The outcome of the check a run asked for.
pub enum DiagnosticEvent {
    /// The listener address could be bound.
    Bound,
    /// Binding failed with this error text.
    BindFailed(String),
    /// The host name resolved; the first address, as text.
    Resolved(String),
    /// The host name resolved to no address.
    ResolvedNothing,
    /// Resolution failed with this error text.
    ResolveFailed(String),
    /// A TCP connection to the resolved address succeeded.
    Connected,
    /// The connection failed with this error text.
    ConnectFailed(String),
    /// The connection did not complete within the time limit.
    ConnectTimedOut,
    /// The SSH handshake and authentication succeeded.
    Authenticated,
    /// The SSH connection failed with this error text.
    AuthenticationFailed(String),
}

/// What the caller is asked to do next.
#[derive(Debug)]
pub enum DiagnosticAction {
    /// Try to bind a TCP listener on this host and port.
    Bind { host: String, port: u16 },
    /// Resolve this host name (with this port).
    Resolve { host: String, port: u16 },
    /// Open a TCP connection to the address last resolved, on this port.
    Connect { address: String, port: u16 },
    /// Connect and authenticate over SSH with the tunnel's own settings and the
    /// run's jump host connection.
    Authenticate,
    /// The report is complete.
    Finish,
}

/// The view of an action.
pub enum ActionView {
    Bind(Seq<char>, u16),
    Resolve(Seq<char>, u16),
    Connect(Seq<char>, u16),
    Authenticate,
    Finish,
}

pub open spec fn action_view(a: DiagnosticAction) -> ActionView {
    match a {
        DiagnosticAction::Bind { host, port } => ActionView::Bind(host@, port),
        DiagnosticAction::Resolve { host, port } => ActionView::Resolve(host@, port),
        DiagnosticAction::Connect { address, port } => ActionView::Connect(address@, port),
        DiagnosticAction::Authenticate => ActionView::Authenticate,
        DiagnosticAction::Finish => ActionView::Finish,
    }
}

/// `host:port`.
pub open spec fn host_port(host: Seq<char>, port: u16) -> Seq<char> {
    host + ":"@ + decimal(port as nat)
}

/// A report line as a view.
pub type StepView = (Seq<char>, Seq<char>, Seq<char>);

pub open spec fn ok_line(name: Seq<char>, message: Seq<char>) -> StepView {
    (name, "success"@, message)
}

pub open spec fn warn_line(name: Seq<char>, message: Seq<char>) -> StepView {
    (name, "warning"@, message)
}

pub open spec fn err_line(name: Seq<char>, message: Seq<char>) -> StepView {
    (name, "error"@, message)
}

pub open spec fn listener_name(l: DiagnosticLanguage) -> Seq<char> {
    pick(l, "监听端口"@, "Listener availability"@)
}

pub open spec fn dns_name(l: DiagnosticLanguage, prefix: Seq<char>) -> Seq<char> {
    prefix + pick(l, "DNS 解析"@, "DNS resolution"@)
}

pub open spec fn tcp_name(l: DiagnosticLanguage, prefix: Seq<char>) -> Seq<char> {
    prefix + pick(l, "TCP 连接"@, "TCP connection"@)
}

pub open spec fn ssh_name(l: DiagnosticLanguage, prefix: Seq<char>) -> Seq<char> {
    prefix + pick(l, "SSH 认证"@, "SSH authentication"@)
}

/// The line for a listener that the tunnel under test holds itself.
pub open spec fn current_listener_line(l: DiagnosticLanguage, hp: Seq<char>) -> StepView {
    ok_line(
        listener_name(l),
        if l == DiagnosticLanguage::Chinese {
            "当前隧道正在监听 "@ + hp + "，端口占用属于正常状态"@
        } else {
            "The current tunnel is listening on "@ + hp + "; this port usage is expected"@
        },
    )
}

pub open spec fn bound_line(l: DiagnosticLanguage, hp: Seq<char>) -> StepView {
    ok_line(
        listener_name(l),
        if l == DiagnosticLanguage::Chinese {
            "监听地址 "@ + hp + " 可用"@
        } else {
            "Listener "@ + hp + " is free and available to bind"@
        },
    )
}

pub open spec fn bind_failed_line(l: DiagnosticLanguage, hp: Seq<char>, e: Seq<char>) -> StepView {
    err_line(
        listener_name(l),
        if l == DiagnosticLanguage::Chinese {
            "无法绑定 "@ + hp + "："@ + e + "。该端口可能已被其他应用占用。"@
        } else {
            "Listener "@ + hp + " cannot be bound: "@ + e
                + ". It is likely in use by another application."@
        },
    )
}

pub open spec fn remote_listener_line(l: DiagnosticLanguage, hp: Seq<char>) -> StepView {
    ok_line(
        pick(l, "远程监听端口"@, "Remote listener"@),
        if l == DiagnosticLanguage::Chinese {
            "启动隧道时将在 SSH 服务器上请求监听 "@ + hp
        } else {
            "Remote listener "@ + hp + " will be requested on the SSH server when the tunnel starts"@
        },
    )
}

pub open spec fn resolved_line(l: DiagnosticLanguage, prefix: Seq<char>, host: Seq<char>, ip: Seq<
    char,
>) -> StepView {
    ok_line(
        dns_name(l, prefix),
        if l == DiagnosticLanguage::Chinese {
            "已将 "@ + host + " 解析为 "@ + ip
        } else {
            "Resolved "@ + host + " to "@ + ip
        },
    )
}

pub open spec fn resolved_nothing_line(l: DiagnosticLanguage, prefix: Seq<char>, host: Seq<char>) -> StepView {
    err_line(
        dns_name(l, prefix),
        if l == DiagnosticLanguage::Chinese {
            host + " 没有解析到任何 IP 地址"@
        } else {
            "Resolved "@ + host + " to no IP addresses"@
        },
    )
}

pub open spec fn resolve_failed_line(l: DiagnosticLanguage, prefix: Seq<char>, host: Seq<char>, e: Seq<
    char,
>) -> StepView {
    err_line(
        dns_name(l, prefix),
        if l == DiagnosticLanguage::Chinese {
            "无法解析主机名 "@ + host + "："@ + e
        } else {
            "Failed to resolve hostname "@ + host + ": "@ + e
        },
    )
}

pub open spec fn connected_line(l: DiagnosticLanguage, prefix: Seq<char>, hp: Seq<char>) -> StepView {
    ok_line(
        tcp_name(l, prefix),
        if l == DiagnosticLanguage::Chinese {
            "已成功连接 "@ + hp
        } else {
            "Successfully established TCP socket to "@ + hp
        },
    )
}

pub open spec fn connect_failed_line(l: DiagnosticLanguage, prefix: Seq<char>, hp: Seq<char>, e: Seq<
    char,
>) -> StepView {
    err_line(
        tcp_name(l, prefix),
        if l == DiagnosticLanguage::Chinese {
            "无法连接 "@ + hp + "："@ + e
        } else {
            "Failed to connect to "@ + hp + ": "@ + e
        },
    )
}

pub open spec fn timed_out_line(l: DiagnosticLanguage, prefix: Seq<char>, hp: Seq<char>) -> StepView {
    err_line(
        tcp_name(l, prefix),
        if l == DiagnosticLanguage::Chinese {
            "连接 "@ + hp + " 超时"@
        } else {
            "Connection to "@ + hp + " timed out"@
        },
    )
}

pub open spec fn authenticated_line(l: DiagnosticLanguage, prefix: Seq<char>) -> StepView {
    ok_line(
        ssh_name(l, prefix),
        pick(l, "SSH 握手和身份认证成功"@, "SSH handshake and authentication completed successfully"@),
    )
}

pub open spec fn auth_failed_line(l: DiagnosticLanguage, prefix: Seq<char>, e: Seq<char>) -> StepView {
    if e == "PASSPHRASE_REQUIRED"@ {
        warn_line(
            ssh_name(l, prefix),
            pick(
                l,
                "私钥已加密，需要输入口令。"@,
                "Private key is encrypted and requires a passphrase."@,
            ),
        )
    } else {
        err_line(
            ssh_name(l, prefix),
            if l == DiagnosticLanguage::Chinese {
                "SSH 认证失败："@ + e
            } else {
                "SSH authentication failed: "@ + e
            },
        )
    }
}

/// A diagnostics run in progress.
pub struct DiagnosticRun {
    language: DiagnosticLanguage,
    listener: Option<DiagnosticEndpoint>,
    forward: Option<DiagnosticEndpoint>,
    target: DiagnosticTarget,
    jump: Option<Tunnel>,
    phase: DiagnosticPhase,
    address: String,
    steps: Vec<DiagnosticStep>,
}

impl DiagnosticRun {
    pub closed spec fn language_spec(self) -> DiagnosticLanguage {
        self.language
    }

    /// The local listener being checked, where there is one.
    pub closed spec fn listener_spec(self) -> Option<(Seq<char>, u16)> {
        match self.listener {
            Some(e) => Some((e.host@, e.port)),
            None => None,
        }
    }

    /// The forward target checked before the SSH server, where there is one.
    pub closed spec fn forward_spec(self) -> Option<(Seq<char>, u16, Seq<char>)> {
        match self.forward {
            Some(e) => Some((e.host@, e.port, e.prefix@)),
            None => None,
        }
    }

    /// The SSH server reached first: host, port and report prefix.
    pub closed spec fn target_spec(self) -> (Seq<char>, u16, Seq<char>) {
        (self.target.host@, self.target.port, self.target.prefix@)
    }

    /// The jump host connection handed to the SSH check.
    pub closed spec fn jump_spec(self) -> Option<Tunnel> {
        self.jump
    }

    pub closed spec fn phase_spec(self) -> DiagnosticPhase {
        self.phase
    }

    /// The address text of the last successful resolution.
    pub closed spec fn address_spec(self) -> Seq<char> {
        self.address@
    }

    /// The report so far.
    pub closed spec fn report(self) -> Seq<StepView> {
        self.steps@.map_values(|s: DiagnosticStep| step_view(s))
    }

    /// The run's fixed plan stays as it was.
    pub open spec fn same_plan(self, other: Self) -> bool {
        &&& self.language_spec() == other.language_spec()
        &&& self.listener_spec() == other.listener_spec()
        &&& self.forward_spec() == other.forward_spec()
        &&& self.target_spec() == other.target_spec()
        &&& self.jump_spec() == other.jump_spec()
    }

    /// Where a run goes once the listener check is behind it.
    pub open spec fn after_listener(self) -> (DiagnosticPhase, ActionView) {
        match self.forward_spec() {
            Some(f) => (DiagnosticPhase::ForwardLookup, ActionView::Resolve(f.0, f.1)),
            None => (
                DiagnosticPhase::TargetLookup,
                ActionView::Resolve(self.target_spec().0, self.target_spec().1),
            ),
        }
    }

    /// The event that the current phase waits for.
    pub open spec fn accepts_spec(self, event: DiagnosticEvent) -> bool {
        match self.phase_spec() {
            DiagnosticPhase::ListenerBind => self.listener_spec() is Some && (event is Bound
                || event is BindFailed),
            DiagnosticPhase::ForwardLookup | DiagnosticPhase::TargetLookup => (
            self.phase_spec() == DiagnosticPhase::ForwardLookup ==> self.forward_spec() is Some)
                && (event is Resolved || event is ResolvedNothing || event is ResolveFailed),
            DiagnosticPhase::ForwardConnect | DiagnosticPhase::TargetConnect => (
            self.phase_spec() == DiagnosticPhase::ForwardConnect ==> self.forward_spec() is Some)
                && (event is Connected || event is ConnectFailed || event is ConnectTimedOut),
            DiagnosticPhase::Authenticate => event is Authenticated || event is AuthenticationFailed,
            DiagnosticPhase::Done => false,
        }
    }

    /// The line an event adds, the phase it leads to and the action requested next.
    pub open spec fn transition(self, event: DiagnosticEvent) -> (StepView, DiagnosticPhase, ActionView) {
        let l = self.language_spec();
        let t = self.target_spec();
        let finish = (DiagnosticPhase::Done, ActionView::Finish);
        match self.phase_spec() {
            DiagnosticPhase::ListenerBind => {
                let lis = self.listener_spec()->0;
                let hp = host_port(lis.0, lis.1);
                match event {
                    DiagnosticEvent::Bound => (
                        bound_line(l, hp),
                        self.after_listener().0,
                        self.after_listener().1,
                    ),
                    DiagnosticEvent::BindFailed(e) => (bind_failed_line(l, hp, e@), finish.0, finish.1),
                    _ => (bound_line(l, hp), finish.0, finish.1),
                }
            },
            DiagnosticPhase::ForwardLookup | DiagnosticPhase::TargetLookup => {
                let forward = self.phase_spec() == DiagnosticPhase::ForwardLookup;
                let (host, port, prefix) = if forward {
                    self.forward_spec()->0
                } else {
                    t
                };
                let connect = if forward {
                    DiagnosticPhase::ForwardConnect
                } else {
                    DiagnosticPhase::TargetConnect
                };
                match event {
                    DiagnosticEvent::Resolved(ip) => (
                        resolved_line(l, prefix, host, ip@),
                        connect,
                        ActionView::Connect(ip@, port),
                    ),
                    DiagnosticEvent::ResolvedNothing => (
                        resolved_nothing_line(l, prefix, host),
                        finish.0,
                        finish.1,
                    ),
                    DiagnosticEvent::ResolveFailed(e) => (
                        resolve_failed_line(l, prefix, host, e@),
                        finish.0,
                        finish.1,
                    ),
                    _ => (resolved_nothing_line(l, prefix, host), finish.0, finish.1),
                }
            },
            DiagnosticPhase::ForwardConnect | DiagnosticPhase::TargetConnect => {
                let forward = self.phase_spec() == DiagnosticPhase::ForwardConnect;
                let (host, port, prefix) = if forward {
                    self.forward_spec()->0
                } else {
                    t
                };
                let hp = host_port(host, port);
                match event {
                    DiagnosticEvent::Connected => (
                        connected_line(l, prefix, hp),
                        if forward {
                            DiagnosticPhase::TargetLookup
                        } else {
                            DiagnosticPhase::Authenticate
                        },
                        if forward {
                            ActionView::Resolve(t.0, t.1)
                        } else {
                            ActionView::Authenticate
                        },
                    ),
                    DiagnosticEvent::ConnectFailed(e) => (
                        connect_failed_line(l, prefix, hp, e@),
                        finish.0,
                        finish.1,
                    ),
                    _ => (timed_out_line(l, prefix, hp), finish.0, finish.1),
                }
            },
            _ => match event {
                DiagnosticEvent::AuthenticationFailed(e) => (
                    auth_failed_line(l, t.2, e@),
                    finish.0,
                    finish.1,
                ),
                _ => (authenticated_line(l, t.2), finish.0, finish.1),
            },
        }
    }

    /// Starts the diagnostics of `tunnel`. A listener that the running tunnel
    /// itself holds is reported as expected rather than bound again; a remote
    /// forward reports the listener the SSH server will be asked for.
    pub fn start(
        tunnel: &Tunnel,
        all_tunnels: &Vec<Tunnel>,
        language: DiagnosticLanguage,
        listener_is_current_tunnel: bool,
    ) -> (r: (Self, DiagnosticAction))
        ensures
            r.0.language_spec() == language,
            (r.0.target_spec().0, r.0.target_spec().1, r.0.target_spec().2) == (
                diagnostic_target_spec(*tunnel, all_tunnels@).0,
                diagnostic_target_spec(*tunnel, all_tunnels@).1,
                diagnostic_target_spec(*tunnel, all_tunnels@).5,
            ),
            jump_config_matches(r.0.jump_spec(), *tunnel, all_tunnels@),
            match tunnel.forward {
                ForwardSpec::Remote { target, .. } => r.0.forward_spec() == Some(
                    (target.host@, target.port, "[Target] "@),
                ),
                _ => r.0.forward_spec() is None,
            },
            match tunnel.forward {
                ForwardSpec::Remote { listen, .. } => {
                    &&& r.0.listener_spec() is None
                    &&& r.0.report() == seq![
                        remote_listener_line(language, host_port(listen.host@, listen.port)),
                    ]
                    &&& r.0.phase_spec() == r.0.after_listener().0
                    &&& action_view(r.1) == r.0.after_listener().1
                },
                _ => {
                    let listen = tunnel.forward.listen_spec();
                    &&& r.0.listener_spec() == Some((listen.host@, listen.port))
                    &&& if listener_is_current_tunnel {
                        &&& r.0.report() == seq![
                            current_listener_line(language, host_port(listen.host@, listen.port)),
                        ]
                        &&& r.0.phase_spec() == r.0.after_listener().0
                        &&& action_view(r.1) == r.0.after_listener().1
                    } else {
                        &&& r.0.report().len() == 0
                        &&& r.0.phase_spec() == DiagnosticPhase::ListenerBind
                        &&& action_view(r.1) == ActionView::Bind(listen.host@, listen.port)
                    }
                },
            },
    {
        let listener = resolve_local_bind_check(tunnel);
        let forward = resolve_forward_tcp_check(tunnel);
        let target = resolve_diagnostic_target(tunnel, all_tunnels);
        let jump = resolve_jump_config(tunnel, all_tunnels);
        let mut steps: Vec<DiagnosticStep> = Vec::new();
        let first_bind = match &listener {
            Some(b) => {
                if listener_is_current_tunnel {
                    let hp = host_port_text(&b.host, b.port);
                    let name = owned(label(language, "监听端口", "Listener availability"));
                    let msg = if language == DiagnosticLanguage::Chinese {
                        join3("当前隧道正在监听 ", &hp, "，端口占用属于正常状态")
                    } else {
                        join3("The current tunnel is listening on ", &hp, "; this port usage is expected")
                    };
                    steps.push(success(name, msg));
                    None
                } else {
                    Some(DiagnosticAction::Bind { host: b.host.clone(), port: b.port })
                }
            },
            None => {
                let remote = resolve_remote_listener(tunnel);
                let hp = host_port_text(&remote.host, remote.port);
                let name = owned(label(language, "远程监听端口", "Remote listener"));
                let msg = if language == DiagnosticLanguage::Chinese {
                    join2("启动隧道时将在 SSH 服务器上请求监听 ", &hp)
                } else {
                    join3("Remote listener ", &hp, " will be requested on the SSH server when the tunnel starts")
                };
                steps.push(success(name, msg));
                None
            },
        };
        let mut run = DiagnosticRun {
            language,
            listener,
            forward,
            target,
            jump,
            phase: DiagnosticPhase::ListenerBind,
            address: String::new(),
            steps,
        };
        match first_bind {
            Some(a) => (run, a),
            None => {
                let a = run.leave_listener();
                (run, a)
            },
        }
    }

    /// Moves past the listener check and requests the next lookup.
    fn leave_listener(&mut self) -> (a: DiagnosticAction)
        ensures
            final(self).same_plan(*old(self)),
            final(self).report() == old(self).report(),
            final(self).phase_spec() == old(self).after_listener().0,
            action_view(a) == old(self).after_listener().1,
            final(self).address_spec() == old(self).address_spec(),
    {
        match &self.forward {
            Some(f) => {
                self.phase = DiagnosticPhase::ForwardLookup;
                DiagnosticAction::Resolve { host: f.host.clone(), port: f.port }
            },
            None => {
                self.phase = DiagnosticPhase::TargetLookup;
                DiagnosticAction::Resolve { host: self.target.host.clone(), port: self.target.port }
            },
        }
    }

    /// Whether the run waits for this kind of outcome.
    pub fn accepts(&self, event: &DiagnosticEvent) -> (r: bool)
        ensures
            r == self.accepts_spec(*event),
    {
        match self.phase {
            DiagnosticPhase::ListenerBind => self.listener.is_some() && match event {
                DiagnosticEvent::Bound | DiagnosticEvent::BindFailed(_) => true,
                _ => false,
            },
            DiagnosticPhase::ForwardLookup | DiagnosticPhase::TargetLookup => (self.phase
                != DiagnosticPhase::ForwardLookup || self.forward.is_some()) && match event {
                DiagnosticEvent::Resolved(_) | DiagnosticEvent::ResolvedNothing
                | DiagnosticEvent::ResolveFailed(_) => true,
                _ => false,
            },
            DiagnosticPhase::ForwardConnect | DiagnosticPhase::TargetConnect => (self.phase
                != DiagnosticPhase::ForwardConnect || self.forward.is_some()) && match event {
                DiagnosticEvent::Connected | DiagnosticEvent::ConnectFailed(_)
                | DiagnosticEvent::ConnectTimedOut => true,
                _ => false,
            },
            DiagnosticPhase::Authenticate => match event {
                DiagnosticEvent::Authenticated | DiagnosticEvent::AuthenticationFailed(_) => true,
                _ => false,
            },
            DiagnosticPhase::Done => false,
        }
    }

    /// The report so far.
    pub fn steps(&self) -> (r: &Vec<DiagnosticStep>)
        ensures
            r@.map_values(|s: DiagnosticStep| step_view(s)) == self.report(),
    {
        &self.steps
    }

    /// The jump host connection the SSH check uses.
    pub fn jump_config(&self) -> (r: &Option<Tunnel>)
        ensures
            *r == self.jump_spec(),
    {
        &self.jump
    }

    /// The phase the run is in.
    pub fn phase(&self) -> (r: DiagnosticPhase)
        ensures
            r == self.phase_spec(),
    {
        self.phase
    }

    /// Records the outcome of the requested check: adds its report line and returns
    /// the next request. A failed check ends the run.
    pub fn advance(&mut self, event: DiagnosticEvent) -> (a: DiagnosticAction)
        requires
            old(self).accepts_spec(event),
        ensures
            final(self).same_plan(*old(self)),
            final(self).report() == old(self).report().push(old(self).transition(event).0),
            final(self).phase_spec() == old(self).transition(event).1,
            action_view(a) == old(self).transition(event).2,
    {
        let l = self.language;
        let ghost before = *self;
        match self.phase {
            DiagnosticPhase::ListenerBind => {
                let (host, port) = match &self.listener {
                    Some(b) => (b.host.clone(), b.port),
                    None => (String::new(), 0),
                };
                let hp = host_port_text(&host, port);
                let name = owned(label(l, "监听端口", "Listener availability"));
                match event {
                    DiagnosticEvent::BindFailed(e) => {
                        let msg = if l == DiagnosticLanguage::Chinese {
                            join5("无法绑定 ", &hp, "：", &e, "。该端口可能已被其他应用占用。")
                        } else {
                            join5("Listener ", &hp, " cannot be bound: ", &e, ". It is likely in use by another application.")
                        };
                        self.push_step(error(name, msg));
                        self.phase = DiagnosticPhase::Done;
                        DiagnosticAction::Finish
                    },
                    _ => {
                        let msg = if l == DiagnosticLanguage::Chinese {
                            join3("监听地址 ", &hp, " 可用")
                        } else {
                            join3("Listener ", &hp, " is free and available to bind")
                        };
                        self.push_step(success(name, msg));
                        self.leave_listener()
                    },
                }
            },
            DiagnosticPhase::ForwardLookup | DiagnosticPhase::TargetLookup => {
                let forward = self.phase == DiagnosticPhase::ForwardLookup;
                let (host, port, prefix) = self.checked_endpoint(forward);
                let name = join2(prefix, &owned(label(l, "DNS 解析", "DNS resolution")));
                match event {
                    DiagnosticEvent::Resolved(ip) => {
                        let msg = if l == DiagnosticLanguage::Chinese {
                            join4("已将 ", &host, " 解析为 ", &ip)
                        } else {
                            join4("Resolved ", &host, " to ", &ip)
                        };
                        self.push_step(success(name, msg));
                        self.phase = if forward {
                            DiagnosticPhase::ForwardConnect
                        } else {
                            DiagnosticPhase::TargetConnect
                        };
                        self.address = ip.clone();
                        DiagnosticAction::Connect { address: ip, port }
                    },
                    DiagnosticEvent::ResolveFailed(e) => {
                        let msg = if l == DiagnosticLanguage::Chinese {
                            join4("无法解析主机名 ", &host, "：", &e)
                        } else {
                            join4("Failed to resolve hostname ", &host, ": ", &e)
                        };
                        self.push_step(error(name, msg));
                        self.phase = DiagnosticPhase::Done;
                        DiagnosticAction::Finish
                    },
                    _ => {
                        let msg = if l == DiagnosticLanguage::Chinese {
                            join_after(&host, " 没有解析到任何 IP 地址")
                        } else {
                            join3("Resolved ", &host, " to no IP addresses")
                        };
                        self.push_step(error(name, msg));
                        self.phase = DiagnosticPhase::Done;
                        DiagnosticAction::Finish
                    },
                }
            },
            DiagnosticPhase::ForwardConnect | DiagnosticPhase::TargetConnect => {
                let forward = self.phase == DiagnosticPhase::ForwardConnect;
                let (host, port, prefix) = self.checked_endpoint(forward);
                let hp = host_port_text(&host, port);
                let name = join2(prefix, &owned(label(l, "TCP 连接", "TCP connection")));
                match event {
                    DiagnosticEvent::Connected => {
                        let msg = if l == DiagnosticLanguage::Chinese {
                            join2("已成功连接 ", &hp)
                        } else {
                            join2("Successfully established TCP socket to ", &hp)
                        };
                        self.push_step(success(name, msg));
                        if forward {
                            self.phase = DiagnosticPhase::TargetLookup;
                            DiagnosticAction::Resolve {
                                host: self.target.host.clone(),
                                port: self.target.port,
                            }
                        } else {
                            self.phase = DiagnosticPhase::Authenticate;
                            DiagnosticAction::Authenticate
                        }
                    },
                    DiagnosticEvent::ConnectFailed(e) => {
                        let msg = if l == DiagnosticLanguage::Chinese {
                            join4("无法连接 ", &hp, "：", &e)
                        } else {
                            join4("Failed to connect to ", &hp, ": ", &e)
                        };
                        self.push_step(error(name, msg));
                        self.phase = DiagnosticPhase::Done;
                        DiagnosticAction::Finish
                    },
                    _ => {
                        let msg = if l == DiagnosticLanguage::Chinese {
                            join3("连接 ", &hp, " 超时")
                        } else {
                            join3("Connection to ", &hp, " timed out")
                        };
                        self.push_step(error(name, msg));
                        self.phase = DiagnosticPhase::Done;
                        DiagnosticAction::Finish
                    },
                }
            },
            _ => {
                let name = join2(self.target.prefix, &owned(label(l, "SSH 认证", "SSH authentication")));
                match event {
                    DiagnosticEvent::AuthenticationFailed(e) => {
                        if e == owned("PASSPHRASE_REQUIRED") {
                            let msg = owned(
                                label(
                                    l,
                                    "私钥已加密，需要输入口令。",
                                    "Private key is encrypted and requires a passphrase.",
                                ),
                            );
                            self.push_step(warning(name, msg));
                        } else {
                            let msg = if l == DiagnosticLanguage::Chinese {
                                join2("SSH 认证失败：", &e)
                            } else {
                                join2("SSH authentication failed: ", &e)
                            };
                            self.push_step(error(name, msg));
                        }
                    },
                    _ => {
                        let msg = owned(
                            label(
                                l,
                                "SSH 握手和身份认证成功",
                                "SSH handshake and authentication completed successfully",
                            ),
                        );
                        self.push_step(success(name, msg));
                    },
                }
                self.phase = DiagnosticPhase::Done;
                DiagnosticAction::Finish
            },
        }
    }

    /// Host, port and prefix of the forward target or of the SSH server.
    fn checked_endpoint(&self, forward: bool) -> (r: (String, u16, &'static str))
        requires
            forward ==> self.forward_spec() is Some,
        ensures
            forward ==> (r.0@, r.1, r.2@) == self.forward_spec()->0,
            !forward ==> (r.0@, r.1, r.2@) == self.target_spec(),
    {
        if forward {
            match &self.forward {
                Some(f) => (f.host.clone(), f.port, f.prefix),
                None => (String::new(), 0, ""),
            }
        } else {
            (self.target.host.clone(), self.target.port, self.target.prefix)
        }
    }

    fn push_step(&mut self, step: DiagnosticStep)
        ensures
            final(self).report() == old(self).report().push(step_view(step)),
            final(self).same_plan(*old(self)),
            final(self).phase_spec() == old(self).phase_spec(),
            final(self).address_spec() == old(self).address_spec(),
    {
        let ghost before = self.steps@;
        self.steps.push(step);
        proof {
            let f = |s: DiagnosticStep| step_view(s);
            assert(self.steps@.map_values(f) =~= before.map_values(f).push(step_view(step)));
        }
    }
}

/// `host:port` as text.
pub fn host_port_text(host: &String, port: u16) -> (r: String)
    ensures
        r@ == host_port(host@, port),
{
    let mut s = host.clone();
    push_str(&mut s, ":");
    let p = decimal_string(port as u64);
    push_str(&mut s, p.as_str());
    s
}

fn join2(a: &str, x: &String) -> (r: String)
    ensures
        r@ == a@ + x@,
{
    let mut s = owned(a);
    push_str(&mut s, x.as_str());
    s
}

fn join_after(x: &String, b: &str) -> (r: String)
    ensures
        r@ == x@ + b@,
{
    let mut s = x.clone();
    push_str(&mut s, b);
    s
}

fn join4(a: &str, x: &String, b: &str, y: &String) -> (r: String)
    ensures
        r@ == a@ + x@ + b@ + y@,
{
    let mut s = owned(a);
    push_str(&mut s, x.as_str());
    push_str(&mut s, b);
    push_str(&mut s, y.as_str());
    s
}

fn join3(a: &str, x: &String, b: &str) -> (r: String)
    ensures
        r@ == a@ + x@ + b@,
{
    let mut s = owned(a);
    push_str(&mut s, x.as_str());
    push_str(&mut s, b);
    s
}

fn join5(a: &str, x: &String, b: &str, y: &String, c: &str) -> (r: String)
    ensures
        r@ == a@ + x@ + b@ + y@ + c@,
{
    let mut s = owned(a);
    push_str(&mut s, x.as_str());
    push_str(&mut s, b);
    push_str(&mut s, y.as_str());
    push_str(&mut s, c);
    s
}

/// How far a run has come: each check has its place, the end comes last.
pub open spec fn phase_rank(p: DiagnosticPhase) -> nat {
    match p {
        DiagnosticPhase::ListenerBind => 0,
        DiagnosticPhase::ForwardLookup => 1,
        DiagnosticPhase::ForwardConnect => 2,
        DiagnosticPhase::TargetLookup => 3,
        DiagnosticPhase::TargetConnect => 4,
        DiagnosticPhase::Authenticate => 5,
        DiagnosticPhase::Done => 6,
    }
}

/// Every outcome a run accepts moves it forward, so a run asks for at most six
/// checks before it ends; an outcome reported as an error ends it at once.
pub proof fn lemma_run_moves_forward(run: DiagnosticRun, event: DiagnosticEvent)
    requires
        run.accepts_spec(event),
    ensures
        phase_rank(run.transition(event).1) > phase_rank(run.phase_spec()),
        run.transition(event).0.1 == "error"@ ==> run.transition(event).1 == DiagnosticPhase::Done,
{
    reveal_strlit("error");
    reveal_strlit("success");
    assert("success"@[0] != "error"@[0]);
    assert("success"@ != "error"@);
}


/// A run ends only on a failure or on the outcome of the SSH authentication: after a
/// successful check (a listener that binds, a name that resolves, a TCP connection
/// that opens) the run always goes on to the next check, and every run that gets
/// through the TCP check of the SSH server is asked to authenticate. The run is over
/// exactly when it asks to finish. So a report never ends all green without the SSH
/// authentication having been checked.
pub proof fn lemma_run_ends_only_on_failure_or_authentication(run: DiagnosticRun, event: DiagnosticEvent)
    requires
        run.accepts_spec(event),
    ensures
        run.transition(event).1 == DiagnosticPhase::Done <==> run.transition(event).2 is Finish,
        run.transition(event).1 == DiagnosticPhase::Done ==> run.transition(event).0.1 == "error"@
            || run.phase_spec() == DiagnosticPhase::Authenticate,
        run.transition(event).0.1 == "success"@ && run.phase_spec() != DiagnosticPhase::Authenticate
            ==> run.transition(event).1 != DiagnosticPhase::Done,
        (run.transition(event).1 == DiagnosticPhase::Authenticate) <==> (run.phase_spec()
            == DiagnosticPhase::TargetConnect && event is Connected),
        (run.transition(event).2 is Authenticate) <==> (run.phase_spec() == DiagnosticPhase::TargetConnect
            && event is Connected),
{
    reveal_strlit("error");
    reveal_strlit("success");
    reveal_strlit("warning");
    assert("success"@[0] != "error"@[0]);
    assert("success"@ != "error"@);
}

} // verus!
