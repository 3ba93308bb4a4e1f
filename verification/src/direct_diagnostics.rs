//! Diagnostics for a tunnel on its own, without the saved tunnels that a jump host
//! reference could point to: the jump host is always the one entered by hand.

use vstd::prelude::*;
use crate::config::Tunnel;
use crate::diagnostics::{DiagnosticTarget, diagnostic_target_spec, or_empty, target_view};
pub use crate::diagnostics::{
    DiagnosticEndpoint, DiagnosticStep, endpoint_to_diagnostic, resolve_forward_tcp_check,
    resolve_local_bind_check, resolve_remote_listener,
};

verus! {

/// The SSH server reached first: the entered jump host (port 0 where none is
/// given), or the tunnel's own SSH host.
pub open spec fn direct_target_spec(tunnel: Tunnel) -> (Seq<char>, u16, Seq<char>, Option<String>, Option<String>, Seq<char>) {
    if tunnel.jump_host_enabled {
        (
            or_empty(tunnel.jump_host),
            match tunnel.jump_port {
                Some(p) => p,
                None => 0,
            },
            or_empty(tunnel.jump_user),
            tunnel.jump_identity_file,
            tunnel.jump_password,
            "[Jump Host] "@,
        )
    } else {
        (
            tunnel.ssh_host@,
            tunnel.ssh_port,
            tunnel.ssh_user@,
            tunnel.ssh_identity_file,
            tunnel.ssh_password,
            ""@,
        )
    }
}

/// Resolves which SSH server the diagnostics of a lone tunnel connect to first.
pub fn resolve_diagnostic_target(tunnel: &Tunnel) -> (r: DiagnosticTarget)
    ensures
        target_view(r) == direct_target_spec(*tunnel),
{
    let none: Vec<Tunnel> = Vec::new();
    let r = crate::diagnostics::resolve_diagnostic_target(tunnel, &none);
    assert(diagnostic_target_spec(*tunnel, none@) == direct_target_spec(*tunnel));
    r
}

} // verus!
