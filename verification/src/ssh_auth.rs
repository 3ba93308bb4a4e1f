//! The decisions of an SSH connection that do not need the network: which
//! authentication to try, which errors end the search for a key, which RSA signature
//! hash to use, how the client keeps a session alive, whether a server key is
//! accepted, and how the end of a session is reported.

use vstd::prelude::*;
use crate::config::Tunnel;
use crate::host_key_prompt::HostKeyIssue;
use crate::known_hosts::HostKeyStatus;
use crate::ssh_config::{opt_view, home_dir};
use crate::store::{path_join, join_path};
use crate::text::{lower_seq, owned, push_str, chars_of};

verus! {

/// How server keys are checked against `known_hosts`.
#[derive(Debug, Clone, Copy, PartialEq, Eq, Structural)]
pub enum KnownHostsPolicy {
    /// Accept the key for this connection only.
    TrustOnce,
    /// Accept a key of an unknown server and record it.
    TrustAndRemember,
    /// Accept only keys that `known_hosts` holds.
    RequireKnown,
}

/// What a connection needs to know.
pub struct ConnectOptions<'a> {
    pub host: &'a str,
    pub port: u16,
    pub user: &'a str,
    pub identity_file: Option<&'a str>,
    pub password: Option<&'a str>,
    pub passphrase: Option<&'a str>,
    pub known_hosts_policy: KnownHostsPolicy,
    pub jump_host_config: Option<&'a Tunnel>,
}

/// A failed attempt with one of the default keys. An attempt that needs the key's
/// passphrase ends the search with that error; any other is remembered as the last
/// error and the search goes on.
pub fn update_key_auth_error(last_key_error: &mut Option<String>, err: String) -> (r: Result<(), String>)
    ensures
        err@ == "PASSPHRASE_REQUIRED"@ ==> r is Err && r->Err_0@ == err@ && *final(last_key_error)
            == *old(last_key_error),
        err@ != "PASSPHRASE_REQUIRED"@ ==> r is Ok && opt_view(*final(last_key_error)) == Some(err@),
{
    if err == owned("PASSPHRASE_REQUIRED") {
        return Err(err);
    }
    *last_key_error = Some(err);
    Ok(())
}

/// The error when no authentication worked: the last key error, if any.
pub open spec fn final_auth_text(last: Option<Seq<char>>) -> Seq<char> {
    match last {
        Some(e) => e,
        None => "All authentication methods failed. Please provide a valid SSH password, SSH Agent, or Private Key configuration."@,
    }
}

/// The error reported when every authentication method failed.
pub fn final_auth_error(last_key_error: Option<String>) -> (r: String)
    ensures
        r@ == final_auth_text(opt_view(last_key_error)),
{
    match last_key_error {
        Some(e) => e,
        None => owned(
            "All authentication methods failed. Please provide a valid SSH password, SSH Agent, or Private Key configuration.",
        ),
    }
}

/// The authentication a connection tries.
#[derive(Debug)]
pub enum AuthPlan {
    /// The configured private key file.
    KeyFile(String),
    /// The configured password.
    Password(String),
    /// The SSH agent, then the default key files in order.
    AgentThenDefaultKeys,
}

/// A configured key file wins; else a non-empty password; else the agent and the
/// default keys.
pub fn auth_plan(identity_file: Option<&str>, password: Option<&str>) -> (r: AuthPlan)
    ensures
        identity_file is Some ==> r is KeyFile && r->KeyFile_0@ == identity_file->0@,
        identity_file is None && password is Some && password->0@.len() > 0 ==> r is Password
            && r->Password_0@ == password->0@,
        identity_file is None && (password is None || password->0@.len() == 0) ==> r is AgentThenDefaultKeys,
{
    match identity_file {
        Some(path) => AuthPlan::KeyFile(owned(path)),
        None => match password {
            Some(p) => {
                let v = chars_of(p);
                if v.len() > 0 {
                    AuthPlan::Password(owned(p))
                } else {
                    AuthPlan::AgentThenDefaultKeys
                }
            },
            None => AuthPlan::AgentThenDefaultKeys,
        },
    }
}

/// `needle` occurs in `s`.
pub open spec fn contains_text(s: Seq<char>, needle: Seq<char>) -> bool {
    exists|i: int| 0 <= i && i + needle.len() <= s.len() && #[trigger] s.subrange(i, i + needle.len()) == needle
}

/// The error of a private key that could not be loaded: a key that mentions a
/// passphrase or encryption needs the passphrase; otherwise the path and the cause.
/// (Case is ignored; for these two words ASCII case folding and full lowercasing
/// agree.)
pub open spec fn key_load_text(message: Seq<char>, path: Seq<char>) -> Seq<char> {
    if contains_text(lower_seq(message), "passphrase"@) || contains_text(lower_seq(message), "encrypted"@) {
        "PASSPHRASE_REQUIRED"@
    } else {
        "Failed to load private key "@ + path + ": "@ + message
    }
}

fn contains_lower(v: &Vec<char>, needle: &str) -> (r: bool)
    ensures
        r == contains_text(lower_seq(v@), needle@),
{
    let n = chars_of(needle);
    let ghost l = lower_seq(v@);
    let len = v.len();
    if n.len() > len {
        return false;
    }
    let last = len - n.len();
    let mut i: usize = 0;
    while i <= last
        invariant
            i <= last,
            n@ == needle@,
            len == v@.len(),
            last + n@.len() == len,
            l == lower_seq(v@),
            forall|k: int| 0 <= k < i ==> #[trigger] l.subrange(k, k + n@.len()) != n@,
        ensures
            forall|k: int| 0 <= k <= last ==> #[trigger] l.subrange(k, k + n@.len()) != n@,
        decreases last + 1 - i,
    {
        let mut j: usize = 0;
        let mut same = true;
        while j < n.len()
            invariant
                j <= n@.len(),
                i <= last,
                last + n@.len() == len,
                len == v@.len(),
                l == lower_seq(v@),
                same == forall|m: int| 0 <= m < j ==> l[i + m] == n@[m],
            decreases n@.len() - j,
        {
            let c = v[i + j];
            let lc = if 'A' <= c && c <= 'Z' {
                ((c as u32) + 32) as u8 as char
            } else {
                c
            };
            assert(lc == l[i + j]);
            if lc != n[j] {
                same = false;
            }
            j += 1;
        }
        if same {
            assert(l.subrange(i as int, i + n@.len()) =~= n@);
            return true;
        }
        assert(l.subrange(i as int, i + n@.len()) != n@) by {
            let m = choose|m: int| 0 <= m < n@.len() && l[i + m] != n@[m];
            assert(l.subrange(i as int, i + n@.len())[m] == l[i + m]);
        }
        if i == last {
            break;
        }
        i += 1;
    }
    proof {
        assert forall|k: int| 0 <= k && k + needle@.len() <= l.len() implies #[trigger] l.subrange(
            k,
            k + needle@.len(),
        ) != needle@ by {}
    }
    false
}

/// The error for a private key file that could not be loaded.
pub fn key_load_error(message: &str, path: &str) -> (r: String)
    ensures
        r@ == key_load_text(message@, path@),
{
    let v = chars_of(message);
    if contains_lower(&v, "passphrase") || contains_lower(&v, "encrypted") {
        return owned("PASSPHRASE_REQUIRED");
    }
    let mut s = owned("Failed to load private key ");
    push_str(&mut s, path);
    push_str(&mut s, ": ");
    push_str(&mut s, message);
    s
}

/// A SHA-2 hash for RSA signatures.
#[derive(Debug, Clone, Copy, PartialEq, Eq, Structural)]
pub enum RsaHash {
    Sha256,
    Sha512,
}

/// The hash for an RSA key, from what the server advertised (`None` when it
/// advertised nothing, `Some(None)` when it only takes SHA-1 signatures). A server
/// limited to SHA-1 is refused rather than downgraded to; one that advertised
/// nothing gets SHA-256.
pub fn select_rsa_hash(advertised: Option<Option<RsaHash>>) -> (r: Result<Option<RsaHash>, &'static str>)
    ensures
        match advertised {
            Some(Some(h)) => r == Ok::<Option<RsaHash>, &'static str>(Some(h)),
            Some(None) => r is Err && r->Err_0@
                == "The SSH server only supports legacy ssh-rsa (SHA-1). Enable RSA-SHA2 on the server or update its SSH software."@,
            None => r == Ok::<Option<RsaHash>, &'static str>(Some(RsaHash::Sha256)),
        },
{
    match advertised {
        Some(Some(hash)) => Ok(Some(hash)),
        Some(None) => Err(
            "The SSH server only supports legacy ssh-rsa (SHA-1). Enable RSA-SHA2 on the server or update its SSH software.",
        ),
        None => Ok(Some(RsaHash::Sha256)),
    }
}

/// How the SSH client treats an idle session.
#[derive(Debug, Clone, Copy, PartialEq, Eq, Structural)]
pub struct ClientSettings {
    pub nodelay: bool,
    /// Seconds between keepalive messages, if they are sent.
    pub keepalive_interval: Option<u64>,
    /// Seconds without traffic after which the session is closed, if ever.
    pub inactivity_timeout: Option<u64>,
}

/// Keepalives every `keep_alive_interval` seconds (none for 0); an idle session is
/// never closed for inactivity, since keepalive replies already prove it healthy.
pub fn client_settings(keep_alive_interval: u32) -> (r: ClientSettings)
    ensures
        r.nodelay,
        r.inactivity_timeout is None,
        r.keepalive_interval == (if keep_alive_interval > 0 {
            Some(keep_alive_interval as u64)
        } else {
            None
        }),
{
    ClientSettings {
        nodelay: true,
        keepalive_interval: if keep_alive_interval > 0 {
            Some(keep_alive_interval as u64)
        } else {
            None
        },
        inactivity_timeout: None,
    }
}

#[verifier::external_type_specification]
#[verifier::external_body]
pub struct ExClientConfig(russh::client::Config);

/// Builds a `russh::client::Config` from its defaults with the given settings; its
/// other fields (such as `keepalive_max`) keep their defaults. Nothing is stated of
/// the value, which Verus does not see into.
#[verifier::external_body]
fn russh_client_config(settings: ClientSettings) -> (r: russh::client::Config) {
    russh::client::Config {
        nodelay: settings.nodelay,
        keepalive_interval: settings.keepalive_interval.map(std::time::Duration::from_secs),
        inactivity_timeout: settings.inactivity_timeout.map(std::time::Duration::from_secs),
        ..Default::default()
    }
}

/// The SSH client configuration for a keepalive interval.
pub fn client_config(keep_alive_interval: u32) -> russh::client::Config {
    russh_client_config(client_settings(keep_alive_interval))
}

/// Why a session ended.
#[derive(Debug)]
pub enum SessionEnd {
    Ended,
    KeepaliveTimeout,
    InactivityTimeout,
    ClosedByRemote,
    DisconnectedByRemote,
    /// Another error, by its message.
    Other(String),
}

/// The report of a session's end.
pub open spec fn session_end_text(end: SessionEnd) -> Seq<char> {
    match end {
        SessionEnd::Ended => "SSH session ended"@,
        SessionEnd::KeepaliveTimeout => "SSH keepalive timed out"@,
        SessionEnd::InactivityTimeout => "SSH session inactivity timed out"@,
        SessionEnd::ClosedByRemote => "SSH connection closed by remote host"@,
        SessionEnd::DisconnectedByRemote => "SSH session disconnected by remote host"@,
        SessionEnd::Other(m) => "SSH session disconnected: "@ + m@,
    }
}

/// Reports the end of a session.
pub fn session_end_report(end: &SessionEnd) -> (r: String)
    ensures
        r@ == session_end_text(*end),
{
    match end {
        SessionEnd::Ended => owned("SSH session ended"),
        SessionEnd::KeepaliveTimeout => owned("SSH keepalive timed out"),
        SessionEnd::InactivityTimeout => owned("SSH session inactivity timed out"),
        SessionEnd::ClosedByRemote => owned("SSH connection closed by remote host"),
        SessionEnd::DisconnectedByRemote => owned("SSH session disconnected by remote host"),
        SessionEnd::Other(m) => {
            let mut s = owned("SSH session disconnected: ");
            push_str(&mut s, m.as_str());
            s
        },
    }
}

#[verifier::external_type_specification]
#[verifier::external_body]
pub struct ExRusshError(russh::Error);

/// Tells the outcome of a `russh` session apart: a clean end exactly for `Ok`, else
/// one of the four causes it names or another error with its message. Which cause an
/// error is, is not stated, since Verus does not see into the error.
#[verifier::external_body]
fn session_end_of(result: &Result<(), russh::Error>) -> (r: SessionEnd)
    ensures
        (r is Ended) <==> (*result is Ok),
{
    match result {
        Ok(()) => SessionEnd::Ended,
        Err(russh::Error::KeepaliveTimeout) => SessionEnd::KeepaliveTimeout,
        Err(russh::Error::InactivityTimeout) => SessionEnd::InactivityTimeout,
        Err(russh::Error::HUP) => SessionEnd::ClosedByRemote,
        Err(russh::Error::Disconnect) => SessionEnd::DisconnectedByRemote,
        Err(error) => SessionEnd::Other(error.to_string()),
    }
}

/// The report of how a `russh` session ended.
pub fn session_end_message(result: &Result<(), russh::Error>) -> (r: String)
    ensures
        exists|end: SessionEnd| r@ == session_end_text(end) && ((end is Ended) <==> (*result is Ok)),
        *result is Ok ==> r@ == "SSH session ended"@,
{
    let end = session_end_of(result);
    session_end_report(&end)
}

/// The default private key files, in the order `ssh` tries them.
pub open spec fn default_key_paths(home: Seq<char>) -> Seq<Seq<char>> {
    let dir = path_join(home, ".ssh"@);
    seq![
        path_join(dir, "id_ed25519"@),
        path_join(dir, "id_rsa"@),
        path_join(dir, "id_ecdsa"@),
        path_join(dir, "id_dsa"@),
    ]
}

/// The default private key files under a home directory; none without one.
pub fn default_key_candidates_in(home: &Option<String>) -> (r: Vec<String>)
    ensures
        r@.map_values(|s: String| s@) == match opt_view(*home) {
            Some(h) => default_key_paths(h),
            None => Seq::empty(),
        },
{
    match home {
        None => {
            let r: Vec<String> = Vec::new();
            assert(r@.map_values(|s: String| s@) =~= Seq::<Seq<char>>::empty());
            r
        },
        Some(h) => {
            let dir = join_path(h.as_str(), ".ssh");
            let mut r: Vec<String> = Vec::new();
            r.push(join_path(dir.as_str(), "id_ed25519"));
            r.push(join_path(dir.as_str(), "id_rsa"));
            r.push(join_path(dir.as_str(), "id_ecdsa"));
            r.push(join_path(dir.as_str(), "id_dsa"));
            assert(r@.map_values(|s: String| s@) =~= default_key_paths(h@));
            r
        },
    }
}

/// The default private key files under the user's home directory; none where the
/// home directory is not known.
pub fn default_key_candidates() -> (r: Vec<String>)
    ensures
        r@.len() == 0 || exists|home: Seq<char>| r@.map_values(|s: String| s@) == default_key_paths(home),
{
    let home = home_dir();
    let r = default_key_candidates_in(&home);
    proof {
        assert(r@.map_values(|s: String| s@).len() == r@.len());
        match home {
            Some(h) => {
                assert(r@.map_values(|s: String| s@) == default_key_paths(h@));
            },
            None => {
                assert(r@.len() == 0);
            },
        }
    }
    r
}

/// What becomes of a server key.
#[derive(Debug)]
pub enum ServerKeyDecision {
    /// Accept it.
    Accept,
    /// Record it in `known_hosts`, then accept it (a failed record refuses it with
    /// that error).
    RecordAndAccept,
    /// Refuse it: it is not the key that the user just confirmed.
    Mismatch(String),
    /// Refuse it and ask the user about it.
    Refuse(HostKeyIssue),
}

/// The message when the key changed while the user was confirming it.
pub open spec fn mismatch_text(expected: Seq<char>, actual: Seq<char>) -> Seq<char> {
    "The SSH host key changed again while confirming it (expected "@ + expected + ", received "@ + actual
        + "). Connection blocked."@
}

/// Whether deciding on a server key under `policy` reads `known_hosts`: a key
/// trusted once is decided without it.
pub fn policy_reads_known_hosts(policy: KnownHostsPolicy) -> (r: bool)
    ensures
        r == (policy != KnownHostsPolicy::TrustOnce),
{
    policy != KnownHostsPolicy::TrustOnce
}

/// Decides on a server key with the fingerprint `actual`: a key other than the one
/// the user confirmed (`expected`) is refused; otherwise the policy and the key's
/// standing in `known_hosts` decide.
pub fn server_key_decision(
    expected: Option<&str>,
    actual: &str,
    policy: KnownHostsPolicy,
    status: HostKeyStatus,
) -> (r: ServerKeyDecision)
    ensures
        expected is Some && expected->0@ != actual@ ==> r is Mismatch && r->Mismatch_0@ == mismatch_text(
            expected->0@,
            actual@,
        ),
        !(expected is Some && expected->0@ != actual@) ==> match policy {
            KnownHostsPolicy::TrustOnce => r is Accept,
            KnownHostsPolicy::TrustAndRemember => match status {
                HostKeyStatus::Trusted => r is Accept,
                HostKeyStatus::Unknown => r is RecordAndAccept,
                HostKeyStatus::Changed => r == ServerKeyDecision::Refuse(HostKeyIssue::Changed),
                HostKeyStatus::Revoked => r == ServerKeyDecision::Refuse(HostKeyIssue::Revoked),
            },
            KnownHostsPolicy::RequireKnown => match status {
                HostKeyStatus::Trusted => r is Accept,
                HostKeyStatus::Unknown => r == ServerKeyDecision::Refuse(HostKeyIssue::Unknown),
                HostKeyStatus::Changed => r == ServerKeyDecision::Refuse(HostKeyIssue::Changed),
                HostKeyStatus::Revoked => r == ServerKeyDecision::Refuse(HostKeyIssue::Revoked),
            },
        },
{
    if let Some(e) = expected {
        if !(owned(e) == owned(actual)) {
            let mut s = owned("The SSH host key changed again while confirming it (expected ");
            push_str(&mut s, e);
            push_str(&mut s, ", received ");
            push_str(&mut s, actual);
            push_str(&mut s, "). Connection blocked.");
            return ServerKeyDecision::Mismatch(s);
        }
    }
    match policy {
        KnownHostsPolicy::TrustOnce => ServerKeyDecision::Accept,
        KnownHostsPolicy::TrustAndRemember => match status {
            HostKeyStatus::Trusted => ServerKeyDecision::Accept,
            HostKeyStatus::Unknown => ServerKeyDecision::RecordAndAccept,
            HostKeyStatus::Changed => ServerKeyDecision::Refuse(HostKeyIssue::Changed),
            HostKeyStatus::Revoked => ServerKeyDecision::Refuse(HostKeyIssue::Revoked),
        },
        KnownHostsPolicy::RequireKnown => match status {
            HostKeyStatus::Trusted => ServerKeyDecision::Accept,
            HostKeyStatus::Unknown => ServerKeyDecision::Refuse(HostKeyIssue::Unknown),
            HostKeyStatus::Changed => ServerKeyDecision::Refuse(HostKeyIssue::Changed),
            HostKeyStatus::Revoked => ServerKeyDecision::Refuse(HostKeyIssue::Revoked),
        },
    }
}

} // verus!
