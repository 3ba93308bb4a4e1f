//! Connection diagnostics for one tunnel: which checks apply, which host they are
//! made against, and the report each outcome adds. The checks themselves (binding a
//! listener, resolving a name, opening a socket, the SSH handshake) are performed
//! by the caller, which feeds their outcomes back one at a time.

use vstd::prelude::*;
use crate::config::{Endpoint, ForwardSpec, Tunnel, clone_opt_string};
use crate::text::{decimal, decimal_string, owned, push_str};

verus! {

/// One line of a diagnostics report.
#[derive(Debug)]
pub struct DiagnosticStep {
    pub name: String,
    pub status: String,
    pub message: String,
}

/// The language diagnostics are reported in.
#[derive(Debug, Clone, Copy, PartialEq, Eq, Structural)]
pub enum DiagnosticLanguage {
    Chinese,
    English,
}

/// A listener or forward target to check.
#[derive(Debug, PartialEq, Eq)]
pub struct DiagnosticEndpoint {
    pub host: String,
    pub port: u16,
    pub prefix: &'static str,
}

/// The SSH server the diagnostics reach first (the jump host where one is used).
#[derive(Debug, PartialEq, Eq)]
pub struct DiagnosticTarget {
    pub host: String,
    pub port: u16,
    pub user: String,
    pub identity_file: Option<String>,
    pub password: Option<String>,
    pub prefix: &'static str,
}

/// The view of a report line: name, status and message.
pub open spec fn step_view(s: DiagnosticStep) -> (Seq<char>, Seq<char>, Seq<char>) {
    (s.name@, s.status@, s.message@)
}

/// The text in the chosen language.
pub open spec fn pick(language: DiagnosticLanguage, chinese: Seq<char>, english: Seq<char>) -> Seq<
    char,
> {
    if language == DiagnosticLanguage::Chinese {
        chinese
    } else {
        english
    }
}

/// Chooses the text of the report language.
pub fn label(language: DiagnosticLanguage, chinese: &'static str, english: &'static str) -> (r:
    &'static str)
    ensures
        r@ == pick(language, chinese@, english@),
{
    if language == DiagnosticLanguage::Chinese {
        chinese
    } else {
        english
    }
}

/// A successful report line.
pub fn success(name: String, message: String) -> (r: DiagnosticStep)
    ensures
        step_view(r) == (name@, "success"@, message@),
{
    DiagnosticStep { name, status: owned("success"), message }
}

/// A report line that needs the user's attention without being a failure.
pub fn warning(name: String, message: String) -> (r: DiagnosticStep)
    ensures
        step_view(r) == (name@, "warning"@, message@),
{
    DiagnosticStep { name, status: owned("warning"), message }
}

/// A failed report line.
pub fn error(name: String, message: String) -> (r: DiagnosticStep)
    ensures
        step_view(r) == (name@, "error"@, message@),
{
    DiagnosticStep { name, status: owned("error"), message }
}

/// A diagnostic endpoint for `endpoint` with the given name prefix.
pub fn endpoint_to_diagnostic(endpoint: &Endpoint, prefix: &'static str) -> (r: DiagnosticEndpoint)
    ensures
        r.host == endpoint.host,
        r.port == endpoint.port,
        r.prefix == prefix,
{
    DiagnosticEndpoint { host: endpoint.host.clone(), port: endpoint.port, prefix }
}

/// The listener to test locally: the listen endpoint of a local or SOCKS5 forward;
/// a remote forward listens on the SSH server and has none.
pub fn resolve_local_bind_check(tunnel: &Tunnel) -> (r: Option<DiagnosticEndpoint>)
    ensures
        match tunnel.forward {
            ForwardSpec::Remote { .. } => r is None,
            _ => r is Some && r->0.host == tunnel.forward.listen_spec().host && r->0.port
                == tunnel.forward.listen_spec().port && r->0.prefix@ == ""@,
        },
{
    match &tunnel.forward {
        ForwardSpec::Local { listen, .. } => Some(endpoint_to_diagnostic(listen, "")),
        ForwardSpec::Socks5 { listen } => Some(endpoint_to_diagnostic(listen, "")),
        ForwardSpec::Remote { .. } => None,
    }
}

/// The listener the SSH server is asked for.
pub fn resolve_remote_listener(tunnel: &Tunnel) -> (r: DiagnosticEndpoint)
    ensures
        r.host == tunnel.forward.listen_spec().host,
        r.port == tunnel.forward.listen_spec().port,
        r.prefix@ == ""@,
{
    endpoint_to_diagnostic(tunnel.forward.listen(), "")
}

/// The target a remote forward delivers to, which is checked from this machine.
pub fn resolve_forward_tcp_check(tunnel: &Tunnel) -> (r: Option<DiagnosticEndpoint>)
    ensures
        match tunnel.forward {
            ForwardSpec::Remote { target, .. } => r is Some && r->0.host == target.host
                && r->0.port == target.port && r->0.prefix@ == "[Target] "@,
            _ => r is None,
        },
{
    match &tunnel.forward {
        ForwardSpec::Remote { target, .. } => Some(endpoint_to_diagnostic(target, "[Target] ")),
        ForwardSpec::Local { .. } => None,
        ForwardSpec::Socks5 { .. } => None,
    }
}

/// The index of the first tunnel whose id is `id`.
pub open spec fn first_with_id(tunnels: Seq<Tunnel>, id: Seq<char>) -> Option<int> {
    if exists|i: int| 0 <= i < tunnels.len() && (#[trigger] tunnels[i]).id@ == id {
        let i = choose|i: int|
            0 <= i < tunnels.len() && (#[trigger] tunnels[i]).id@ == id && forall|j: int|
                0 <= j < i ==> (#[trigger] tunnels[j]).id@ != id;
        Some(i)
    } else {
        None
    }
}

/// The saved tunnel a jump host reference points to, if it points to one.
pub open spec fn jump_reference(tunnel: Tunnel, all: Seq<Tunnel>) -> Option<Tunnel> {
    match tunnel.jump_host_id {
        Some(id) => match first_with_id(all, id@) {
            Some(i) => Some(all[i]),
            None => None,
        },
        None => None,
    }
}

proof fn lemma_first_with_id(tunnels: Seq<Tunnel>, id: Seq<char>, i: int)
    requires
        0 <= i < tunnels.len(),
        tunnels[i].id@ == id,
        forall|j: int| 0 <= j < i ==> (#[trigger] tunnels[j]).id@ != id,
    ensures
        first_with_id(tunnels, id) == Some(i),
{
    let k = choose|k: int|
        0 <= k < tunnels.len() && (#[trigger] tunnels[k]).id@ == id && forall|j: int|
            0 <= j < k ==> (#[trigger] tunnels[j]).id@ != id;
    assert(exists|k: int|
        0 <= k < tunnels.len() && (#[trigger] tunnels[k]).id@ == id && forall|j: int|
            0 <= j < k ==> (#[trigger] tunnels[j]).id@ != id);
    if k < i {
        assert(tunnels[k].id@ != id);
    }
    if i < k {
        assert(tunnels[i].id@ != id);
    }
}

/// Finds the tunnel with the given id, the first one where several share it.
pub fn find_tunnel(tunnels: &Vec<Tunnel>, id: &String) -> (r: Option<usize>)
    ensures
        match r {
            Some(i) => i < tunnels@.len() && tunnels@[i as int].id@ == id@ && first_with_id(
                tunnels@,
                id@,
            ) == Some(i as int),
            None => first_with_id(tunnels@, id@) is None,
        },
{
    let mut i: usize = 0;
    while i < tunnels.len()
        invariant
            i <= tunnels@.len(),
            forall|j: int| 0 <= j < i ==> (#[trigger] tunnels@[j]).id@ != id@,
        decreases tunnels@.len() - i,
    {
        if tunnels[i].id == *id {
            proof {
                lemma_first_with_id(tunnels@, id@, i as int);
            }
            return Some(i);
        }
        i += 1;
    }
    None
}

/// Finds the saved tunnel that a jump host reference points to.
pub(crate) fn find_jump_reference(tunnel: &Tunnel, all_tunnels: &Vec<Tunnel>) -> (r: Option<usize>)
    ensures
        match r {
            Some(i) => i < all_tunnels@.len() && jump_reference(*tunnel, all_tunnels@) == Some(
                all_tunnels@[i as int],
            ),
            None => jump_reference(*tunnel, all_tunnels@) is None,
        },
{
    match &tunnel.jump_host_id {
        Some(id) => find_tunnel(all_tunnels, id),
        None => None,
    }
}

/// The text of an optional string, empty when absent.
pub open spec fn or_empty(o: Option<String>) -> Seq<char> {
    match o {
        Some(s) => s@,
        None => Seq::empty(),
    }
}

pub(crate) fn text_or_empty(o: &Option<String>) -> (r: String)
    ensures
        r@ == or_empty(*o),
{
    match o {
        Some(s) => s.clone(),
        None => String::new(),
    }
}

/// The server the diagnostics reach first: a referenced saved tunnel, the manually
/// entered jump host, or the tunnel's own SSH host when no jump host is used.
pub open spec fn diagnostic_target_spec(tunnel: Tunnel, all: Seq<Tunnel>) -> (Seq<char>, u16, Seq<
    char,
>, Option<String>, Option<String>, Seq<char>) {
    if tunnel.jump_host_enabled {
        match jump_reference(tunnel, all) {
            Some(j) => (
                j.ssh_host@,
                j.ssh_port,
                j.ssh_user@,
                j.ssh_identity_file,
                j.ssh_password,
                "[Jump Host] "@,
            ),
            None => (
                or_empty(tunnel.jump_host),
                match tunnel.jump_port {
                    Some(p) => p,
                    None => 0,
                },
                or_empty(tunnel.jump_user),
                tunnel.jump_identity_file,
                tunnel.jump_password,
                "[Jump Host] "@,
            ),
        }
    } else {
        (
            tunnel.ssh_host@,
            tunnel.ssh_port,
            tunnel.ssh_user@,
            tunnel.ssh_identity_file,
            tunnel.ssh_password,
            ""@,
        )
    }
}

/// The view of a diagnostic target.
pub open spec fn target_view(t: DiagnosticTarget) -> (Seq<char>, u16, Seq<char>, Option<String>, Option<
    String,
>, Seq<char>) {
    (t.host@, t.port, t.user@, t.identity_file, t.password, t.prefix@)
}

/// Resolves which SSH server the diagnostics connect to first.
pub fn resolve_diagnostic_target(tunnel: &Tunnel, all_tunnels: &Vec<Tunnel>) -> (r: DiagnosticTarget)
    ensures
        target_view(r) == diagnostic_target_spec(*tunnel, all_tunnels@),
{
    if tunnel.jump_host_enabled {
        if let Some(i) = find_jump_reference(tunnel, all_tunnels) {
            let jump_host = &all_tunnels[i];
            return DiagnosticTarget {
                host: jump_host.ssh_host.clone(),
                port: jump_host.ssh_port,
                user: jump_host.ssh_user.clone(),
                identity_file: clone_opt_string(&jump_host.ssh_identity_file),
                password: clone_opt_string(&jump_host.ssh_password),
                prefix: "[Jump Host] ",
            };
        }
        DiagnosticTarget {
            host: text_or_empty(&tunnel.jump_host),
            port: match tunnel.jump_port {
                Some(p) => p,
                None => 0,
            },
            user: text_or_empty(&tunnel.jump_user),
            identity_file: clone_opt_string(&tunnel.jump_identity_file),
            password: clone_opt_string(&tunnel.jump_password),
            prefix: "[Jump Host] ",
        }
    } else {
        DiagnosticTarget {
            host: tunnel.ssh_host.clone(),
            port: tunnel.ssh_port,
            user: tunnel.ssh_user.clone(),
            identity_file: clone_opt_string(&tunnel.ssh_identity_file),
            password: clone_opt_string(&tunnel.ssh_password),
            prefix: "",
        }
    }
}

/// The jump host connection the SSH check uses: a referenced saved tunnel, or a
/// tunnel made from the manually entered jump host fields (port 22 when none).
pub open spec fn jump_config_matches(r: Option<Tunnel>, tunnel: Tunnel, all: Seq<Tunnel>) -> bool {
    if !tunnel.jump_host_enabled {
        r is None
    } else {
        match jump_reference(tunnel, all) {
            Some(j) => r == Some(j),
            None => r is Some && {
                let c = r->0;
                &&& c.id@ == tunnel.id@ + "_diagnostic_jump"@
                &&& c.name@ == or_empty(tunnel.jump_host)
                &&& c.description is None
                &&& c.group_id is None
                &&& c.ssh_host@ == or_empty(tunnel.jump_host)
                &&& c.ssh_port == (match tunnel.jump_port {
                    Some(p) => p,
                    None => 22,
                })
                &&& c.ssh_user@ == or_empty(tunnel.jump_user)
                &&& c.ssh_identity_file == tunnel.jump_identity_file
                &&& c.ssh_password == tunnel.jump_password
                &&& !c.jump_host_enabled
                &&& c.jump_host_id is None
                &&& c.jump_host is None
                &&& c.jump_port is None
                &&& c.jump_user is None
                &&& c.jump_identity_file is None
                &&& c.jump_password is None
                &&& c.forward == tunnel.forward
                &&& !c.start_with_app
                &&& !c.auto_reconnect
                &&& c.retry_count == 0
                &&& c.retry_interval == tunnel.retry_interval
            },
        }
    }
}

/// The jump host connection to use for the SSH check, if any.
pub fn resolve_jump_config(tunnel: &Tunnel, all_tunnels: &Vec<Tunnel>) -> (r: Option<Tunnel>)
    ensures
        jump_config_matches(r, *tunnel, all_tunnels@),
{
    if !tunnel.jump_host_enabled {
        return None;
    }
    if let Some(i) = find_jump_reference(tunnel, all_tunnels) {
        return Some(all_tunnels[i].clone());
    }
    let mut id = tunnel.id.clone();
    push_str(&mut id, "_diagnostic_jump");
    Some(Tunnel {
        id,
        name: text_or_empty(&tunnel.jump_host),
        description: None,
        group_id: None,
        ssh_host: text_or_empty(&tunnel.jump_host),
        ssh_port: match tunnel.jump_port {
            Some(p) => p,
            None => 22,
        },
        ssh_user: text_or_empty(&tunnel.jump_user),
        ssh_identity_file: clone_opt_string(&tunnel.jump_identity_file),
        ssh_password: clone_opt_string(&tunnel.jump_password),
        jump_host_enabled: false,
        jump_host_id: None,
        jump_host: None,
        jump_port: None,
        jump_user: None,
        jump_identity_file: None,
        jump_password: None,
        forward: tunnel.forward.clone(),
        start_with_app: false,
        auto_reconnect: false,
        retry_count: 0,
        retry_interval: tunnel.retry_interval,
    })
}

} // verus!
