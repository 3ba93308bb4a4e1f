//! Tunnel configuration: the data model, its validation and where it is stored.

use vstd::prelude::*;
use crate::text::{blank, decimal, decimal_string, is_blank, owned, push_str};

verus! {

/// The configuration format version this library reads and writes.
pub const CONFIG_VERSION: u32 = 1;

/// The run state of one tunnel.
#[derive(Debug, Clone, Copy, PartialEq, Eq, Structural)]
pub enum TunnelStatus {
    Stopped,
    Running,
    Connecting,
    Reconnecting,
    Failed,
}

/// A named collection of tunnels.
#[derive(Debug, PartialEq, Eq)]
pub struct Group {
    pub id: String,
    pub name: String,
    pub description: Option<String>,
}

/// A host and port pair.
#[derive(Debug, PartialEq, Eq)]
pub struct Endpoint {
    pub host: String,
    pub port: u16,
}

/// What a tunnel forwards: a local port, a remote port, or a SOCKS5 proxy.
#[derive(Debug, PartialEq, Eq)]
pub enum ForwardSpec {
    Local { listen: Endpoint, target: Endpoint },
    Remote { listen: Endpoint, target: Endpoint },
    Socks5 { listen: Endpoint },
}

/// One SSH tunnel definition.
#[derive(Debug, PartialEq, Eq)]
pub struct Tunnel {
    pub id: String,
    pub name: String,
    pub description: Option<String>,
    pub group_id: Option<String>,
    pub ssh_host: String,
    pub ssh_port: u16,
    pub ssh_user: String,
    pub ssh_identity_file: Option<String>,
    pub ssh_password: Option<String>,
    pub jump_host_enabled: bool,
    pub jump_host_id: Option<String>,
    pub jump_host: Option<String>,
    pub jump_port: Option<u16>,
    pub jump_user: Option<String>,
    pub jump_identity_file: Option<String>,
    pub jump_password: Option<String>,
    pub forward: ForwardSpec,
    pub start_with_app: bool,
    pub auto_reconnect: bool,
    pub retry_count: u32,
    pub retry_interval: u32,
}

/// Application-wide settings.
#[derive(Debug, PartialEq, Eq)]
pub struct GlobalSettings {
    pub launch_on_startup: bool,
    pub start_minimized: bool,
    pub close_to_tray: bool,
    pub keep_alive_interval: u32,
    pub connect_timeout: u32,
    pub ssh_config_path: Option<String>,
}

/// The whole stored configuration.
#[derive(Debug, PartialEq, Eq)]
pub struct AppConfig {
    pub version: u32,
    pub groups: Vec<Group>,
    pub tunnels: Vec<Tunnel>,
    pub settings: GlobalSettings,
}

pub fn clone_opt_string(o: &Option<String>) -> (r: Option<String>)
    ensures
        r == *o,
{
    match o {
        Some(s) => Some(s.clone()),
        None => None,
    }
}

impl Clone for Endpoint {
    fn clone(&self) -> (r: Self)
        ensures
            r == *self,
    {
        Endpoint { host: self.host.clone(), port: self.port }
    }
}

impl Clone for Group {
    fn clone(&self) -> (r: Self)
        ensures
            r == *self,
    {
        Group {
            id: self.id.clone(),
            name: self.name.clone(),
            description: clone_opt_string(&self.description),
        }
    }
}

impl Clone for ForwardSpec {
    fn clone(&self) -> (r: Self)
        ensures
            r == *self,
    {
        match self {
            ForwardSpec::Local { listen, target } => ForwardSpec::Local {
                listen: listen.clone(),
                target: target.clone(),
            },
            ForwardSpec::Remote { listen, target } => ForwardSpec::Remote {
                listen: listen.clone(),
                target: target.clone(),
            },
            ForwardSpec::Socks5 { listen } => ForwardSpec::Socks5 { listen: listen.clone() },
        }
    }
}

impl Clone for Tunnel {
    fn clone(&self) -> (r: Self)
        ensures
            r == *self,
    {
        Tunnel {
            id: self.id.clone(),
            name: self.name.clone(),
            description: clone_opt_string(&self.description),
            group_id: clone_opt_string(&self.group_id),
            ssh_host: self.ssh_host.clone(),
            ssh_port: self.ssh_port,
            ssh_user: self.ssh_user.clone(),
            ssh_identity_file: clone_opt_string(&self.ssh_identity_file),
            ssh_password: clone_opt_string(&self.ssh_password),
            jump_host_enabled: self.jump_host_enabled,
            jump_host_id: clone_opt_string(&self.jump_host_id),
            jump_host: clone_opt_string(&self.jump_host),
            jump_port: self.jump_port,
            jump_user: clone_opt_string(&self.jump_user),
            jump_identity_file: clone_opt_string(&self.jump_identity_file),
            jump_password: clone_opt_string(&self.jump_password),
            forward: self.forward.clone(),
            start_with_app: self.start_with_app,
            auto_reconnect: self.auto_reconnect,
            retry_count: self.retry_count,
            retry_interval: self.retry_interval,
        }
    }
}

impl Clone for GlobalSettings {
    fn clone(&self) -> (r: Self)
        ensures
            r == *self,
    {
        GlobalSettings {
            launch_on_startup: self.launch_on_startup,
            start_minimized: self.start_minimized,
            close_to_tray: self.close_to_tray,
            keep_alive_interval: self.keep_alive_interval,
            connect_timeout: self.connect_timeout,
            ssh_config_path: clone_opt_string(&self.ssh_config_path),
        }
    }
}

impl Default for GlobalSettings {
    fn default() -> (r: Self)
        ensures
            !r.launch_on_startup,
            !r.start_minimized,
            !r.close_to_tray,
            r.keep_alive_interval == 30,
            r.connect_timeout == 15,
            r.ssh_config_path is None,
    {
        GlobalSettings {
            launch_on_startup: false,
            start_minimized: false,
            close_to_tray: false,
            keep_alive_interval: 30,
            connect_timeout: 15,
            ssh_config_path: None,
        }
    }
}

impl Default for AppConfig {
    fn default() -> (r: Self)
        ensures
            r.version == CONFIG_VERSION,
            r.groups@.len() == 0,
            r.tunnels@.len() == 0,
            r.settings.keep_alive_interval == 30,
            r.settings.connect_timeout == 15,
            !r.settings.launch_on_startup,
            !r.settings.start_minimized,
            !r.settings.close_to_tray,
            r.settings.ssh_config_path is None,
    {
        AppConfig {
            version: CONFIG_VERSION,
            groups: Vec::new(),
            tunnels: Vec::new(),
            settings: GlobalSettings::default(),
        }
    }
}

impl ForwardSpec {
    /// The endpoint this forward listens on.
    pub open spec fn listen_spec(self) -> Endpoint {
        match self {
            ForwardSpec::Local { listen, .. } => listen,
            ForwardSpec::Remote { listen, .. } => listen,
            ForwardSpec::Socks5 { listen } => listen,
        }
    }

    /// The endpoint traffic is sent to, where the forward has one.
    pub open spec fn target_spec(self) -> Option<Endpoint> {
        match self {
            ForwardSpec::Local { target, .. } => Some(target),
            ForwardSpec::Remote { target, .. } => Some(target),
            ForwardSpec::Socks5 { .. } => None,
        }
    }

    pub fn listen(&self) -> (r: &Endpoint)
        ensures
            *r == self.listen_spec(),
    {
        match self {
            ForwardSpec::Local { listen, .. } => listen,
            ForwardSpec::Remote { listen, .. } => listen,
            ForwardSpec::Socks5 { listen } => listen,
        }
    }

    pub fn target(&self) -> (r: Option<&Endpoint>)
        ensures
            match self.target_spec() {
                Some(t) => r is Some && *r->0 == t,
                None => r is None,
            },
    {
        match self {
            ForwardSpec::Local { target, .. } => Some(target),
            ForwardSpec::Remote { target, .. } => Some(target),
            ForwardSpec::Socks5 { .. } => None,
        }
    }
}

/// The text of an optional string, empty when absent (`as_deref().unwrap_or_default()`).
pub open spec fn opt_text(o: Option<String>) -> Seq<char> {
    match o {
        Some(s) => s@,
        None => Seq::empty(),
    }
}

/// The first problem with an endpoint, labelled with `label`.
pub open spec fn endpoint_error(e: Endpoint, label: Seq<char>) -> Option<Seq<char>> {
    if blank(e.host@) {
        Some(label + " host is required"@)
    } else if e.port == 0 {
        Some(label + " port is invalid"@)
    } else {
        None
    }
}

/// `Tunnel '<name>'` followed by `rest`.
pub open spec fn tunnel_message(name: Seq<char>, rest: Seq<char>) -> Seq<char> {
    "Tunnel '"@ + name + rest
}

/// The first problem with a tunnel definition, in the order the checks are made.
pub open spec fn tunnel_error(t: Tunnel) -> Option<Seq<char>> {
    if blank(t.name@) {
        Some("Tunnel name is required"@)
    } else if blank(t.ssh_host@) {
        Some(tunnel_message(t.name@, "' SSH host is required"@))
    } else if t.ssh_port == 0 {
        Some(tunnel_message(t.name@, "' SSH port is invalid"@))
    } else if blank(t.ssh_user@) {
        Some(tunnel_message(t.name@, "' SSH user is required"@))
    } else if endpoint_error(t.forward.listen_spec(), "listen endpoint"@) is Some {
        endpoint_error(t.forward.listen_spec(), "listen endpoint"@)
    } else if t.forward.target_spec() is Some && endpoint_error(
        t.forward.target_spec()->0,
        "target endpoint"@,
    ) is Some {
        endpoint_error(t.forward.target_spec()->0, "target endpoint"@)
    } else if t.jump_host_enabled && blank(opt_text(t.jump_host)) {
        Some(tunnel_message(t.name@, "' jump host is required"@))
    } else if t.jump_host_enabled && (t.jump_port is None || t.jump_port->0 == 0) {
        Some(tunnel_message(t.name@, "' jump port is invalid"@))
    } else if t.jump_host_enabled && blank(opt_text(t.jump_user)) {
        Some(tunnel_message(t.name@, "' jump user is required"@))
    } else {
        None
    }
}

/// The first problem among `tunnels`, scanning from the front.
pub open spec fn first_tunnel_error(tunnels: Seq<Tunnel>) -> Option<Seq<char>>
    decreases tunnels.len(),
{
    if tunnels.len() == 0 {
        None
    } else if tunnel_error(tunnels[0]) is Some {
        tunnel_error(tunnels[0])
    } else {
        first_tunnel_error(tunnels.drop_first())
    }
}

/// The message for a configuration of another version.
pub open spec fn version_message(version: u32) -> Seq<char> {
    "Unsupported configuration version: expected "@ + decimal(CONFIG_VERSION as nat) + ", got "@
        + decimal(version as nat)
}

/// The first problem with a whole configuration.
pub open spec fn config_error(c: AppConfig) -> Option<Seq<char>> {
    if c.version != CONFIG_VERSION {
        Some(version_message(c.version))
    } else {
        first_tunnel_error(c.tunnels@)
    }
}

/// The result a check gives for its first problem, if any.
pub open spec fn check_result(r: Result<(), String>, problem: Option<Seq<char>>) -> bool {
    match r {
        Ok(()) => problem is None,
        Err(e) => problem == Some(e@),
    }
}

fn labelled(label: &str, rest: &str) -> (r: String)
    ensures
        r@ == label@ + rest@,
{
    let mut s = owned(label);
    push_str(&mut s, rest);
    s
}

fn tunnel_msg(name: &String, rest: &str) -> (r: String)
    ensures
        r@ == tunnel_message(name@, rest@),
{
    let mut s = owned("Tunnel '");
    push_str(&mut s, name.as_str());
    push_str(&mut s, rest);
    s
}

fn opt_is_blank(o: &Option<String>) -> (r: bool)
    ensures
        r == blank(opt_text(*o)),
{
    match o {
        Some(s) => is_blank(s.as_str()),
        None => true,
    }
}

/// Checks that an endpoint has a host and a non-zero port.
pub fn validate_endpoint(endpoint: &Endpoint, label: &str) -> (r: Result<(), String>)
    ensures
        check_result(r, endpoint_error(*endpoint, label@)),
{
    if is_blank(endpoint.host.as_str()) {
        return Err(labelled(label, " host is required"));
    }
    if endpoint.port == 0 {
        return Err(labelled(label, " port is invalid"));
    }
    Ok(())
}

/// Checks one tunnel definition and reports its first problem.
pub fn validate_tunnel(tunnel: &Tunnel) -> (r: Result<(), String>)
    ensures
        check_result(r, tunnel_error(*tunnel)),
{
    if is_blank(tunnel.name.as_str()) {
        return Err(owned("Tunnel name is required"));
    }
    if is_blank(tunnel.ssh_host.as_str()) {
        return Err(tunnel_msg(&tunnel.name, "' SSH host is required"));
    }
    if tunnel.ssh_port == 0 {
        return Err(tunnel_msg(&tunnel.name, "' SSH port is invalid"));
    }
    if is_blank(tunnel.ssh_user.as_str()) {
        return Err(tunnel_msg(&tunnel.name, "' SSH user is required"));
    }
    validate_endpoint(tunnel.forward.listen(), "listen endpoint")?;
    if let Some(target) = tunnel.forward.target() {
        validate_endpoint(target, "target endpoint")?;
    }
    if tunnel.jump_host_enabled {
        if opt_is_blank(&tunnel.jump_host) {
            return Err(tunnel_msg(&tunnel.name, "' jump host is required"));
        }
        let port_missing = match tunnel.jump_port {
            Some(p) => p == 0,
            None => true,
        };
        if port_missing {
            return Err(tunnel_msg(&tunnel.name, "' jump port is invalid"));
        }
        if opt_is_blank(&tunnel.jump_user) {
            return Err(tunnel_msg(&tunnel.name, "' jump user is required"));
        }
    }
    Ok(())
}

proof fn lemma_first_error_split(s: Seq<Tunnel>, i: int)
    requires
        0 <= i < s.len(),
        first_tunnel_error(s.subrange(0, i)) is None,
    ensures
        first_tunnel_error(s.subrange(0, i + 1)) == (if tunnel_error(s[i]) is Some {
            tunnel_error(s[i])
        } else {
            None
        }),
    decreases i,
{
    let a = s.subrange(0, i + 1);
    if i == 0 {
        assert(a[0] == s[0]);
        assert(a.drop_first().len() == 0);
        assert(first_tunnel_error(a.drop_first()) is None);
    } else {
        assert(a[0] == s[0]);
        let p = s.subrange(0, i);
        assert(p[0] == s[0]);
        if tunnel_error(s[0]) is Some {
            assert(first_tunnel_error(p) == tunnel_error(s[0]));
            assert(false);
        }
        assert(s.drop_first().subrange(0, i - 1) == p.drop_first());
        assert(first_tunnel_error(p) == first_tunnel_error(p.drop_first()));
        lemma_first_error_split(s.drop_first(), i - 1);
        assert(s.drop_first().subrange(0, i) == a.drop_first());
        assert(s.drop_first()[i - 1] == s[i]);
        assert(first_tunnel_error(a) == first_tunnel_error(a.drop_first()));
    }
}

/// Checks the version and then every tunnel, and reports the first problem.
pub fn validate_config(config: &AppConfig) -> (r: Result<(), String>)
    ensures
        check_result(r, config_error(*config)),
{
    if config.version != CONFIG_VERSION {
        let mut s = owned("Unsupported configuration version: expected ");
        let expected = decimal_string(CONFIG_VERSION as u64);
        push_str(&mut s, expected.as_str());
        push_str(&mut s, ", got ");
        let got = decimal_string(config.version as u64);
        push_str(&mut s, got.as_str());
        return Err(s);
    }
    let mut i: usize = 0;
    while i < config.tunnels.len()
        invariant
            i <= config.tunnels@.len(),
            config.version == CONFIG_VERSION,
            first_tunnel_error(config.tunnels@.subrange(0, i as int)) is None,
        decreases config.tunnels@.len() - i,
    {
        proof {
            lemma_first_error_split(config.tunnels@, i as int);
        }
        match validate_tunnel(&config.tunnels[i]) {
            Ok(()) => {},
            Err(e) => {
                proof {
                    assert(tunnel_error(config.tunnels@[i as int]) == Some(e@));
                    assert(first_tunnel_error(config.tunnels@.subrange(0, i as int + 1)) == Some(e@));
                    lemma_first_error_prefix(config.tunnels@, i as int + 1);
                    assert(config_error(*config) == Some(e@));
                }
                return Err(e);
            },
        }
        i += 1;
    }
    assert(config.tunnels@.subrange(0, config.tunnels@.len() as int) == config.tunnels@);
    Ok(())
}

proof fn lemma_first_error_prefix(s: Seq<Tunnel>, n: int)
    requires
        0 <= n <= s.len(),
        first_tunnel_error(s.subrange(0, n)) is Some,
    ensures
        first_tunnel_error(s) == first_tunnel_error(s.subrange(0, n)),
    decreases n,
{
    let p = s.subrange(0, n);
    assert(p.len() > 0);
    assert(p[0] == s[0]);
    if tunnel_error(s[0]) is None {
        assert(p.drop_first() == s.drop_first().subrange(0, n - 1));
        lemma_first_error_prefix(s.drop_first(), n - 1);
    }
}

} // verus!
