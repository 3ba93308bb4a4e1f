//! The bookkeeping of running tunnels: which tunnel has an operation under way, its
//! status, and what each outcome of connecting, forwarding or reconnecting does to
//! them. Connecting, forwarding and waiting are done by the caller, which reports
//! each outcome here together with the operation it belongs to; outcomes of an
//! operation that was cancelled or replaced change nothing.

use vstd::prelude::*;
use crate::config::{TunnelStatus, Tunnel, clone_opt_string, tunnel_message};
use crate::diagnostics::{find_jump_reference, jump_reference, or_empty, text_or_empty};
use crate::text::{decimal, decimal_string, owned, push_str, starts_with};

verus! {

/// A status change of a tunnel, as reported to the interface.
#[derive(Debug, PartialEq, Eq)]
pub struct StatusPayload {
    pub tunnel_id: String,
    pub status: TunnelStatus,
    pub message: Option<String>,
}

/// The runtime record of one tunnel.
#[derive(Debug, Clone, Copy, PartialEq, Eq, Structural)]
pub struct TunnelRuntime {
    pub status: TunnelStatus,
    /// The operation (connect and reconnect cycle) under way, if any.
    pub operation: Option<u128>,
    /// A forwarding session is registered for the tunnel.
    pub active: bool,
    /// A reconnect attempt is scheduled.
    pub reconnect_pending: bool,
}

/// The record of a tunnel nobody has started yet.
pub open spec fn idle() -> TunnelRuntime {
    TunnelRuntime { status: TunnelStatus::Stopped, operation: None, active: false, reconnect_pending: false }
}

/// Runtime records of all tunnels the manager has seen.
pub struct TunnelManager {
    records: Vec<(String, TunnelRuntime)>,
    last_operation: u128,
}

/// The record stored for `id`, the first one if several were stored.
pub open spec fn lookup(records: Seq<(String, TunnelRuntime)>, id: Seq<char>) -> Option<TunnelRuntime>
    decreases records.len(),
{
    if records.len() == 0 {
        None
    } else if records[0].0@ == id {
        Some(records[0].1)
    } else {
        lookup(records.drop_first(), id)
    }
}


/// The record of a tunnel as seen by the manager.
pub open spec fn record_or_idle(r: Option<TunnelRuntime>) -> TunnelRuntime {
    match r {
        Some(x) => x,
        None => idle(),
    }
}

/// A tunnel is running or has an operation under way.
pub open spec fn busy(r: TunnelRuntime) -> bool {
    r.active || r.operation is Some
}

/// What a failed connection leads to.
#[derive(Debug, PartialEq, Eq)]
pub enum FailureOutcome {
    /// The operation was cancelled or replaced: nothing changes.
    Ignored,
    /// The tunnel is marked failed and its operation ends; this status is reported.
    Failed(StatusPayload),
    /// Another attempt is scheduled.
    Retry,
}

/// What the reconnect schedule does next.
#[derive(Debug, PartialEq, Eq)]
pub enum ReconnectStep {
    /// The operation was cancelled or replaced: nothing changes.
    Ignored,
    /// All attempts are used up: the tunnel is marked failed; this status is
    /// reported and this activity recorded.
    GiveUp { status: StatusPayload, activity: String },
    /// This status is reported; after the retry interval, this activity is recorded
    /// and the next attempt made.
    Wait { status: StatusPayload, activity: String },
}

/// What stopping a tunnel leads to: whether a session and a scheduled reconnect were
/// there to tear down, the status to report, and the activity to record (only where
/// a session was stopped).
#[derive(Debug, PartialEq, Eq)]
pub struct StopOutcome {
    pub had_session: bool,
    pub had_reconnect: bool,
    pub status: StatusPayload,
    pub activity: Option<String>,
}

/// A status report of `id` with `status` and `message`, as values.
pub open spec fn reports(p: StatusPayload, id: Seq<char>, status: TunnelStatus, message: Option<Seq<char>>) -> bool {
    &&& p.tunnel_id@ == id
    &&& p.status == status
    &&& match p.message {
        Some(m) => message == Some(m@),
        None => message is None,
    }
}

fn status_report(id: &String, status: TunnelStatus, message: Option<String>) -> (r: StatusPayload)
    ensures
        r.tunnel_id@ == id@,
        r.status == status,
        r.message == message,
{
    StatusPayload { tunnel_id: id.clone(), status, message }
}

/// The status message when forwarding could not start.
pub open spec fn forwarding_failure_text(error: Seq<char>) -> Seq<char> {
    "Failed to start forwarding listeners: "@ + error
}

/// The status message (and activity) when forwarding could not start.
pub fn forwarding_failure(error: &str) -> (r: String)
    ensures
        r@ == forwarding_failure_text(error@),
{
    let mut s = owned("Failed to start forwarding listeners: ");
    push_str(&mut s, error);
    s
}

/// `Reconnecting attempt <attempt>/<max>...`, the activity recorded when an attempt
/// begins.
pub open spec fn reconnect_activity_text(attempt: u32, max: u32) -> Seq<char> {
    "Reconnecting attempt "@ + decimal(attempt as nat) + "/"@ + decimal(max as nat) + "..."@
}

/// The activity recorded when a reconnect attempt begins.
pub fn reconnect_activity(attempt: u32, max: u32) -> (r: String)
    ensures
        r@ == reconnect_activity_text(attempt, max),
{
    let mut s = owned("Reconnecting attempt ");
    let a = decimal_string(attempt as u64);
    push_str(&mut s, a.as_str());
    push_str(&mut s, "/");
    let m = decimal_string(max as u64);
    push_str(&mut s, m.as_str());
    push_str(&mut s, "...");
    s
}

/// An error that needs the user (a passphrase, or a decision on the host key) and is
/// therefore not retried.
pub open spec fn needs_user(err: Seq<char>) -> bool {
    ||| err == "PASSPHRASE_REQUIRED"@
    ||| starts_with(err, "HOST_KEY_NOT_TRUSTED|"@)
    ||| starts_with(err, "HOST_KEY_CHANGED|"@)
    ||| starts_with(err, "HOST_KEY_REVOKED|"@)
}

fn starts_with_str(s: &str, prefix: &str) -> (r: bool)
    ensures
        r == starts_with(s@, prefix@),
{
    let v = crate::text::chars_of(s);
    let p = crate::text::chars_of(prefix);
    if p.len() > v.len() {
        return false;
    }
    let mut i: usize = 0;
    while i < p.len()
        invariant
            i <= p@.len() <= v@.len(),
            p@ == prefix@,
            v@ == s@,
            forall|j: int| 0 <= j < i ==> v@[j] == p@[j],
        decreases p@.len() - i,
    {
        if v[i] != p[i] {
            assert(v@.subrange(0, p@.len() as int)[i as int] != p@[i as int]);
            assert(v@.subrange(0, p@.len() as int) != p@);
            return false;
        }
        i += 1;
    }
    assert(v@.subrange(0, p@.len() as int) =~= p@);
    true
}

/// Whether a connection error needs the user rather than another attempt.
pub fn needs_user_action(err: &str) -> (r: bool)
    ensures
        r == needs_user(err@),
{
    owned(err) == owned("PASSPHRASE_REQUIRED") || starts_with_str(err, "HOST_KEY_NOT_TRUSTED|")
        || starts_with_str(err, "HOST_KEY_CHANGED|") || starts_with_str(err, "HOST_KEY_REVOKED|")
}

/// `Reconnecting (attempt <attempt>/<max>)...`
pub open spec fn reconnecting_message(attempt: u32, max: u32) -> Seq<char> {
    "Reconnecting (attempt "@ + decimal(attempt as nat) + "/"@ + decimal(max as nat) + ")..."@
}

/// The status message while a reconnect attempt is scheduled.
pub fn reconnect_message(attempt: u32, max: u32) -> (r: String)
    ensures
        r@ == reconnecting_message(attempt, max),
{
    let mut s = owned("Reconnecting (attempt ");
    let a = decimal_string(attempt as u64);
    push_str(&mut s, a.as_str());
    push_str(&mut s, "/");
    let m = decimal_string(max as u64);
    push_str(&mut s, m.as_str());
    push_str(&mut s, ")...");
    s
}

fn tunnel_error(name: &String, rest: &str) -> (r: String)
    ensures
        r@ == tunnel_message(name@, rest@),
{
    let mut s = owned("Tunnel '");
    push_str(&mut s, name.as_str());
    push_str(&mut s, rest);
    s
}

/// The jump host a connection attempt goes through: none without a jump host; the
/// referenced saved tunnel, which must exist; or a tunnel made from the manually
/// entered fields, whose port and user must be given.
pub open spec fn attempt_jump_spec(r: Result<Option<Tunnel>, String>, tunnel: Tunnel, all: Seq<Tunnel>) -> bool {
    if !tunnel.jump_host_enabled {
        r == Ok::<Option<Tunnel>, String>(None)
    } else if tunnel.jump_host_id is Some {
        match jump_reference(tunnel, all) {
            Some(j) => r == Ok::<Option<Tunnel>, String>(Some(j)),
            None => r is Err && r->Err_0@ == tunnel_message(tunnel.name@, "' jump host reference was not found"@),
        }
    } else if tunnel.jump_port is None {
        r is Err && r->Err_0@ == tunnel_message(tunnel.name@, "' jump port is required"@)
    } else if tunnel.jump_user is None {
        r is Err && r->Err_0@ == tunnel_message(tunnel.name@, "' jump user is required"@)
    } else {
        r is Ok && r->Ok_0 is Some && {
            let c = r->Ok_0->0;
            &&& c.id@ == tunnel.id@ + "_manual_jump"@
            &&& c.name@ == or_empty(tunnel.jump_host)
            &&& c.description is None
            &&& c.group_id is None
            &&& c.ssh_host@ == or_empty(tunnel.jump_host)
            &&& Some(c.ssh_port) == tunnel.jump_port
            &&& Some(c.ssh_user) == tunnel.jump_user
            &&& c.ssh_identity_file == tunnel.jump_identity_file
            &&& c.ssh_password == tunnel.jump_password
            &&& !c.jump_host_enabled
            &&& c.jump_host_id is None
            &&& c.jump_host is None
            &&& c.jump_port is None
            &&& c.jump_user is None
            &&& c.jump_identity_file is None
            &&& c.jump_password is None
            &&& c.forward == tunnel.forward
            &&& !c.start_with_app
            &&& !c.auto_reconnect
            &&& c.retry_count == 0
            &&& c.retry_interval == tunnel.retry_interval
        }
    }
}

/// Resolves the jump host of a connection attempt against the saved tunnels.
pub fn attempt_jump_config(tunnel: &Tunnel, all_tunnels: &Vec<Tunnel>) -> (r: Result<Option<Tunnel>, String>)
    ensures
        attempt_jump_spec(r, *tunnel, all_tunnels@),
{
    if !tunnel.jump_host_enabled {
        return Ok(None);
    }
    if tunnel.jump_host_id.is_some() {
        return match find_jump_reference(tunnel, all_tunnels) {
            Some(i) => Ok(Some(all_tunnels[i].clone())),
            None => Err(tunnel_error(&tunnel.name, "' jump host reference was not found")),
        };
    }
    let port = match tunnel.jump_port {
        Some(p) => p,
        None => {
            return Err(tunnel_error(&tunnel.name, "' jump port is required"));
        },
    };
    let user = match &tunnel.jump_user {
        Some(u) => u.clone(),
        None => {
            return Err(tunnel_error(&tunnel.name, "' jump user is required"));
        },
    };
    let mut id = tunnel.id.clone();
    push_str(&mut id, "_manual_jump");
    Ok(
        Some(
            Tunnel {
                id,
                name: text_or_empty(&tunnel.jump_host),
                description: None,
                group_id: None,
                ssh_host: text_or_empty(&tunnel.jump_host),
                ssh_port: port,
                ssh_user: user,
                ssh_identity_file: clone_opt_string(&tunnel.jump_identity_file),
                ssh_password: clone_opt_string(&tunnel.jump_password),
                jump_host_enabled: false,
                jump_host_id: None,
                jump_host: None,
                jump_port: None,
                jump_user: None,
                jump_identity_file: None,
                jump_password: None,
                forward: tunnel.forward.clone(),
                start_with_app: false,
                auto_reconnect: false,
                retry_count: 0,
                retry_interval: tunnel.retry_interval,
            },
        ),
    )
}

impl TunnelManager {
    /// The manager's record of a tunnel (`None` if it never saw the tunnel).
    pub closed spec fn record(self, id: Seq<char>) -> Option<TunnelRuntime> {
        lookup(self.records@, id)
    }

    /// The operation id this manager handed out last (0 before the first).
    pub closed spec fn last_issued(self) -> u128 {
        self.last_operation
    }

    /// The manager's record of a tunnel, idle where it has none.
    pub open spec fn runtime(self, id: Seq<char>) -> TunnelRuntime {
        record_or_idle(self.record(id))
    }

    /// `id` has the operation `op` under way.
    pub open spec fn is_current(self, id: Seq<char>, op: u128) -> bool {
        self.runtime(id).operation == Some(op)
    }

    /// Only the record of `id` may differ, and it is `r`; no operation id is handed out.
    pub open spec fn updated(self, old: Self, id: Seq<char>, r: TunnelRuntime) -> bool {
        &&& self.runtime(id) == r
        &&& forall|k: Seq<char>| k != id ==> #[trigger] self.runtime(k) == old.runtime(k)
        &&& self.last_issued() == old.last_issued()
    }

    /// `id` was claimed for the operation `op`, an id other than the one handed out
    /// last; only its record differs.
    pub open spec fn claimed_for(self, old: Self, id: Seq<char>, op: u128) -> bool {
        &&& self.runtime(id) == claimed(op)
        &&& forall|k: Seq<char>| k != id ==> #[trigger] self.runtime(k) == old.runtime(k)
        &&& op != old.last_issued()
        &&& self.last_issued() == op
    }

    /// No record differs.
    pub open spec fn unchanged(self, old: Self) -> bool {
        &&& forall|k: Seq<char>| #[trigger] self.runtime(k) == old.runtime(k)
        &&& self.last_issued() == old.last_issued()
    }

    /// A manager that has seen no tunnel.
    pub fn new() -> (r: Self)
        ensures
            forall|k: Seq<char>| #[trigger] r.runtime(k) == idle(),
    {
        TunnelManager { records: Vec::new(), last_operation: 0 }
    }

    fn find(&self, id: &String) -> (r: Option<usize>)
        ensures
            match r {
                Some(i) => i < self.records@.len() && self.records@[i as int].0@ == id@
                    && self.record(id@) == Some(self.records@[i as int].1) && forall|j: int|
                    0 <= j < i ==> self.records@[j].0@ != id@,
                None => self.record(id@) is None && forall|j: int|
                    0 <= j < self.records@.len() ==> self.records@[j].0@ != id@,
            },
    {
        let mut i: usize = 0;
        assert(self.records@.subrange(0, self.records@.len() as int) =~= self.records@);
        while i < self.records.len()
            invariant
                i <= self.records@.len(),
                forall|j: int| 0 <= j < i ==> self.records@[j].0@ != id@,
                lookup(self.records@, id@) == lookup(self.records@.subrange(i as int, self.records@.len() as int), id@),
            decreases self.records@.len() - i,
        {
            let ghost rest = self.records@.subrange(i as int, self.records@.len() as int);
            assert(rest[0] == self.records@[i as int]);
            if self.records[i].0 == *id {
                return Some(i);
            }
            assert(rest.drop_first() == self.records@.subrange(i + 1, self.records@.len() as int));
            i += 1;
        }
        None
    }

    /// The current record of a tunnel.
    pub fn runtime_of(&self, id: &String) -> (r: TunnelRuntime)
        ensures
            r == self.runtime(id@),
    {
        match self.find(id) {
            Some(i) => self.records[i].1,
            None => TunnelRuntime {
                status: TunnelStatus::Stopped,
                operation: None,
                active: false,
                reconnect_pending: false,
            },
        }
    }

    /// The status of a tunnel; stopped if the manager never saw it.
    pub fn get_status(&self, tunnel_id: &String) -> (r: TunnelStatus)
        ensures
            r == self.runtime(tunnel_id@).status,
    {
        self.runtime_of(tunnel_id).status
    }

    proof fn lemma_lookup_set(records: Seq<(String, TunnelRuntime)>, i: int, id: String, r: TunnelRuntime, k: Seq<char>)
        requires
            0 <= i < records.len(),
            records[i].0@ == id@,
            forall|j: int| 0 <= j < i ==> records[j].0@ != id@,
        ensures
            lookup(records.update(i, (id, r)), k) == if k == id@ {
                Some(r)
            } else {
                lookup(records, k)
            },
        decreases i,
    {
        let u = records.update(i, (id, r));
        if i > 0 {
            assert(u.drop_first() == records.drop_first().update(i - 1, (id, r)));
            Self::lemma_lookup_set(records.drop_first(), i - 1, id, r, k);
        } else {
            assert(u.drop_first() == records.drop_first());
        }
    }

    proof fn lemma_lookup_push(records: Seq<(String, TunnelRuntime)>, id: String, r: TunnelRuntime, k: Seq<char>)
        requires
            forall|j: int| 0 <= j < records.len() ==> records[j].0@ != id@,
        ensures
            lookup(records.push((id, r)), k) == if k == id@ {
                Some(r)
            } else {
                lookup(records, k)
            },
        decreases records.len(),
    {
        let u = records.push((id, r));
        assert(u[records.len() as int] == (id, r));
        if records.len() > 0 {
            assert(u[0] == records[0]);
            assert(u.drop_first() =~= records.drop_first().push((id, r)));
            Self::lemma_lookup_push(records.drop_first(), id, r, k);
        } else {
            assert(u[0] == (id, r));
            assert(u.drop_first().len() == 0);
        }
    }

    /// Stores `r` as the record of `id`.
    fn set(&mut self, id: &String, r: TunnelRuntime)
        ensures
            final(self).updated(*old(self), id@, r),
    {
        match self.find(id) {
            Some(i) => {
                let ghost before = self.records@;
                let key = id.clone();
                let ghost entry = (key, r);
                self.records.set(i, (key, r));
                proof {
                    assert forall|k: Seq<char>| true implies #[trigger] lookup(self.records@, k) == if k == id@ {
                        Some(r)
                    } else {
                        lookup(before, k)
                    } by {
                        Self::lemma_lookup_set(before, i as int, entry.0, r, k);
                    }
                }
            },
            None => {
                let ghost before = self.records@;
                let key = id.clone();
                let ghost entry = (key, r);
                self.records.push((key, r));
                proof {
                    assert forall|k: Seq<char>| true implies #[trigger] lookup(self.records@, k) == if k == id@ {
                        Some(r)
                    } else {
                        lookup(before, k)
                    } by {
                        Self::lemma_lookup_push(before, entry.0, r, k);
                    }
                }
            },
        }
    }

    /// Claims a tunnel for a new operation. A tunnel that runs or has an operation
    /// under way is refused; otherwise it gets a fresh operation, is marked
    /// connecting, and a scheduled reconnect is dropped (returned as `true` in the
    /// second component, for the caller to cancel).
    pub fn begin_operation(&mut self, tunnel_id: &String) -> (r: Result<(u128, bool), String>)
        ensures
            match r {
                Err(e) => busy(old(self).runtime(tunnel_id@)) && e@
                    == "Tunnel is already running or connecting"@ && final(self).unchanged(
                    *old(self),
                ),
                Ok((op, cancel_reconnect)) => !busy(old(self).runtime(tunnel_id@))
                    && cancel_reconnect == old(self).runtime(tunnel_id@).reconnect_pending
                    && final(self).claimed_for(*old(self), tunnel_id@, op),
            },
    {
        let cur = self.runtime_of(tunnel_id);
        if cur.active || cur.operation.is_some() {
            return Err(owned("Tunnel is already running or connecting"));
        }
        let drawn = crate::event_log::new_uuid().0;
        let op = if drawn != self.last_operation {
            drawn
        } else if drawn == 0 {
            1
        } else {
            drawn - 1
        };
        self.set(
            tunnel_id,
            TunnelRuntime {
                status: TunnelStatus::Connecting,
                operation: Some(op),
                active: false,
                reconnect_pending: false,
            },
        );
        let ghost after_set = *self;
        self.last_operation = op;
        assert forall|k: Seq<char>| #[trigger] self.runtime(k) == after_set.runtime(k) by {
            assert(self.record(k) == after_set.record(k));
        }
        Ok((op, cur.reconnect_pending))
    }

    /// Whether `op` is still the operation of the tunnel.
    pub fn operation_is_current(&self, tunnel_id: &String, op: u128) -> (r: bool)
        ensures
            r == self.is_current(tunnel_id@, op),
    {
        match self.runtime_of(tunnel_id).operation {
            Some(o) => o == op,
            None => false,
        }
    }

    /// Stops a tunnel: its operation ends, a scheduled reconnect is dropped, its
    /// session is unregistered and it is marked stopped. Returns whether a session was
    /// registered and whether a reconnect was scheduled, for the caller to tear down.
    pub fn stop_tunnel(&mut self, tunnel_id: &String) -> (r: StopOutcome)
        ensures
            r.had_session == old(self).runtime(tunnel_id@).active,
            r.had_reconnect == old(self).runtime(tunnel_id@).reconnect_pending,
            reports(r.status, tunnel_id@, TunnelStatus::Stopped, None),
            match r.activity {
                Some(a) => r.had_session && a@ == "Tunnel stopped by user"@,
                None => !r.had_session,
            },
            final(self).updated(*old(self), tunnel_id@, idle()),
    {
        let cur = self.runtime_of(tunnel_id);
        self.set(
            tunnel_id,
            TunnelRuntime {
                status: TunnelStatus::Stopped,
                operation: None,
                active: false,
                reconnect_pending: false,
            },
        );
        StopOutcome {
            had_session: cur.active,
            had_reconnect: cur.reconnect_pending,
            status: status_report(tunnel_id, TunnelStatus::Stopped, None),
            activity: if cur.active {
                Some(owned("Tunnel stopped by user"))
            } else {
                None
            },
        }
    }

    /// An attempt of `op` begins: refused with an error (nothing changes) when the
    /// operation was cancelled; otherwise the tunnel is marked connecting, no
    /// reconnect is scheduled any more, and the status to report and the activity to
    /// record come back.
    pub fn attempt_started(&mut self, tunnel_id: &String, op: u128) -> (r: Result<(StatusPayload, String), String>)
        ensures
            r is Ok == old(self).is_current(tunnel_id@, op),
            r is Err ==> r->Err_0@ == "Tunnel operation was cancelled"@ && final(self).unchanged(*old(self)),
            r is Ok ==> reports(r->Ok_0.0, tunnel_id@, TunnelStatus::Connecting, Some("Connecting to SSH host..."@))
                && r->Ok_0.1@ == "Tunnel connection starting..."@,
            r is Ok ==> final(self).updated(
                *old(self),
                tunnel_id@,
                TunnelRuntime {
                    status: TunnelStatus::Connecting,
                    reconnect_pending: false,
                    ..old(self).runtime(tunnel_id@)
                },
            ),
    {
        if !self.operation_is_current(tunnel_id, op) {
            return Err(owned("Tunnel operation was cancelled"));
        }
        let cur = self.runtime_of(tunnel_id);
        self.set(
            tunnel_id,
            TunnelRuntime { status: TunnelStatus::Connecting, reconnect_pending: false, ..cur },
        );
        Ok((
            status_report(tunnel_id, TunnelStatus::Connecting, Some(owned("Connecting to SSH host..."))),
            owned("Tunnel connection starting..."),
        ))
    }

    /// The connection of `op` failed with `err`. A cancelled operation changes
    /// nothing. An error that needs the user, or any error without automatic
    /// reconnect, marks the tunnel failed and ends the operation; otherwise another
    /// attempt is to be scheduled.
    pub fn connection_failed(&mut self, tunnel_id: &String, op: u128, err: &str, auto_reconnect: bool) -> (r: FailureOutcome)
        ensures
            !old(self).is_current(tunnel_id@, op) ==> r is Ignored && final(self).unchanged(*old(self)),
            old(self).is_current(tunnel_id@, op) && (needs_user(err@) || !auto_reconnect) ==> r is Failed
                && reports(r->Failed_0, tunnel_id@, TunnelStatus::Failed, Some(err@)) && final(self).updated(
                *old(self),
                tunnel_id@,
                TunnelRuntime { status: TunnelStatus::Failed, operation: None, ..old(self).runtime(tunnel_id@) },
            ),
            old(self).is_current(tunnel_id@, op) && !needs_user(err@) && auto_reconnect ==> r is Retry
                && final(self).unchanged(*old(self)),
    {
        if !self.operation_is_current(tunnel_id, op) {
            return FailureOutcome::Ignored;
        }
        if needs_user_action(err) || !auto_reconnect {
            let cur = self.runtime_of(tunnel_id);
            self.set(tunnel_id, TunnelRuntime { status: TunnelStatus::Failed, operation: None, ..cur });
            FailureOutcome::Failed(status_report(tunnel_id, TunnelStatus::Failed, Some(owned(err))))
        } else {
            FailureOutcome::Retry
        }
    }

    /// Forwarding could not start for `op` (with `error`): a current operation marks
    /// the tunnel failed and ends, and the failure status is returned; a cancelled one
    /// changes nothing.
    pub fn forwarding_failed(&mut self, tunnel_id: &String, op: u128, error: &str) -> (r: Option<StatusPayload>)
        ensures
            r is Some == old(self).is_current(tunnel_id@, op),
            r is None ==> final(self).unchanged(*old(self)),
            r is Some ==> reports(
                r->0,
                tunnel_id@,
                TunnelStatus::Failed,
                Some(forwarding_failure_text(error@)),
            ),
            r is Some ==> final(self).updated(
                *old(self),
                tunnel_id@,
                TunnelRuntime { status: TunnelStatus::Failed, operation: None, ..old(self).runtime(tunnel_id@) },
            ),
    {
        if !self.operation_is_current(tunnel_id, op) {
            return None;
        }
        let cur = self.runtime_of(tunnel_id);
        self.set(tunnel_id, TunnelRuntime { status: TunnelStatus::Failed, operation: None, ..cur });
        Some(status_report(tunnel_id, TunnelStatus::Failed, Some(forwarding_failure(error))))
    }

    /// The session of `op` is up and forwarding: a current operation registers it
    /// and marks the tunnel running, and the status to report and the activity to
    /// record come back; for a cancelled one nothing changes and the caller shuts the
    /// session down.
    pub fn session_started(&mut self, tunnel_id: &String, op: u128) -> (r: Option<(StatusPayload, String)>)
        ensures
            r is Some == old(self).is_current(tunnel_id@, op),
            r is None ==> final(self).unchanged(*old(self)),
            r is Some ==> reports((r->0).0, tunnel_id@, TunnelStatus::Running, None) && (r->0).1@ == "Tunnel is active"@,
            r is Some ==> final(self).updated(
                *old(self),
                tunnel_id@,
                TunnelRuntime { status: TunnelStatus::Running, active: true, ..old(self).runtime(tunnel_id@) },
            ),
    {
        if !self.operation_is_current(tunnel_id, op) {
            return None;
        }
        let cur = self.runtime_of(tunnel_id);
        self.set(tunnel_id, TunnelRuntime { status: TunnelStatus::Running, active: true, ..cur });
        Some((status_report(tunnel_id, TunnelStatus::Running, None), owned("Tunnel is active")))
    }

    /// Schedules reconnect attempt `attempt` of `op` (of at most `max_retries`). A
    /// cancelled operation changes nothing. Past the last attempt the tunnel is marked
    /// failed and its operation ends; otherwise it is marked reconnecting.
    pub fn schedule_reconnect(&mut self, tunnel_id: &String, op: u128, attempt: u32, max_retries: u32) -> (r: ReconnectStep)
        ensures
            !old(self).is_current(tunnel_id@, op) ==> r is Ignored && final(self).unchanged(*old(self)),
            old(self).is_current(tunnel_id@, op) && attempt > max_retries ==> r is GiveUp && reports(
                r->GiveUp_status,
                tunnel_id@,
                TunnelStatus::Failed,
                Some("Max reconnect attempts reached"@),
            ) && r->GiveUp_activity@ == "Max reconnect attempts reached. Giving up."@ && final(self).updated(
                *old(self),
                tunnel_id@,
                TunnelRuntime { status: TunnelStatus::Failed, operation: None, ..old(self).runtime(tunnel_id@) },
            ),
            old(self).is_current(tunnel_id@, op) && attempt <= max_retries ==> r is Wait && reports(
                r->Wait_status,
                tunnel_id@,
                TunnelStatus::Reconnecting,
                Some(reconnecting_message(attempt, max_retries)),
            ) && r->Wait_activity@ == reconnect_activity_text(attempt, max_retries) && final(self).updated(
                *old(self),
                tunnel_id@,
                TunnelRuntime {
                    status: TunnelStatus::Reconnecting,
                    reconnect_pending: true,
                    ..old(self).runtime(tunnel_id@)
                },
            ),
    {
        if !self.operation_is_current(tunnel_id, op) {
            return ReconnectStep::Ignored;
        }
        let cur = self.runtime_of(tunnel_id);
        if attempt > max_retries {
            self.set(tunnel_id, TunnelRuntime { status: TunnelStatus::Failed, operation: None, ..cur });
            ReconnectStep::GiveUp {
                status: status_report(
                    tunnel_id,
                    TunnelStatus::Failed,
                    Some(owned("Max reconnect attempts reached")),
                ),
                activity: owned("Max reconnect attempts reached. Giving up."),
            }
        } else {
            self.set(
                tunnel_id,
                TunnelRuntime { status: TunnelStatus::Reconnecting, reconnect_pending: true, ..cur },
            );
            ReconnectStep::Wait {
                status: status_report(
                    tunnel_id,
                    TunnelStatus::Reconnecting,
                    Some(reconnect_message(attempt, max_retries)),
                ),
                activity: reconnect_activity(attempt, max_retries),
            }
        }
    }

    /// The session of a running tunnel closed. Its registration ends. With automatic
    /// reconnect the caller schedules attempt 1 (`Retry`); otherwise a current
    /// operation marks the tunnel failed and ends.
    pub fn session_closed(&mut self, tunnel_id: &String, op: u128, auto_reconnect: bool) -> (r: FailureOutcome)
        ensures
            auto_reconnect ==> r is Retry && final(self).updated(
                *old(self),
                tunnel_id@,
                TunnelRuntime { active: false, ..old(self).runtime(tunnel_id@) },
            ),
            !auto_reconnect && old(self).is_current(tunnel_id@, op) ==> r is Failed && reports(
                r->Failed_0,
                tunnel_id@,
                TunnelStatus::Failed,
                Some("Session disconnected"@),
            ) && final(self).updated(
                *old(self),
                tunnel_id@,
                TunnelRuntime {
                    status: TunnelStatus::Failed,
                    operation: None,
                    active: false,
                    ..old(self).runtime(tunnel_id@)
                },
            ),
            !auto_reconnect && !old(self).is_current(tunnel_id@, op) ==> r is Ignored && final(self).updated(
                *old(self),
                tunnel_id@,
                TunnelRuntime { active: false, ..old(self).runtime(tunnel_id@) },
            ),
    {
        let cur = self.runtime_of(tunnel_id);
        let current = self.operation_is_current(tunnel_id, op);
        if auto_reconnect {
            self.set(tunnel_id, TunnelRuntime { active: false, ..cur });
            FailureOutcome::Retry
        } else if current {
            self.set(
                tunnel_id,
                TunnelRuntime { status: TunnelStatus::Failed, operation: None, active: false, ..cur },
            );
            FailureOutcome::Failed(status_report(tunnel_id, TunnelStatus::Failed, Some(owned("Session disconnected"))))
        } else {
            self.set(tunnel_id, TunnelRuntime { active: false, ..cur });
            FailureOutcome::Ignored
        }
    }

    /// The tunnels that have an operation under way, as stopping them all visits them:
    /// each such tunnel once, and no other.
    pub fn operation_ids(&self) -> (r: Vec<String>)
        ensures
            forall|i: int| 0 <= i < r@.len() ==> self.runtime(#[trigger] r@[i]@).operation is Some,
            forall|k: Seq<char>|
                #[trigger] self.runtime(k).operation is Some ==> exists|i: int| 0 <= i < r@.len() && r@[i]@ == k,
            forall|i: int, j: int| 0 <= i < j < r@.len() ==> r@[i]@ != r@[j]@,
    {
        let mut r: Vec<String> = Vec::new();
        let mut i: usize = 0;
        while i < self.records.len()
            invariant
                i <= self.records@.len(),
                forall|j: int| 0 <= j < r@.len() ==> self.runtime(#[trigger] r@[j]@).operation is Some,
                forall|j: int|
                    0 <= j < i && self.runtime(#[trigger] self.records@[j].0@).operation is Some ==> exists|m: int|
                        0 <= m < r@.len() && r@[m]@ == self.records@[j].0@,
                forall|a: int, b: int| 0 <= a < b < r@.len() ==> r@[a]@ != r@[b]@,
            decreases self.records@.len() - i,
        {
            let id = &self.records[i].0;
            let cur = self.runtime_of(id);
            let ghost before = r@;
            if cur.operation.is_some() {
                let mut seen = false;
                let mut m: usize = 0;
                while m < r.len()
                    invariant
                        m <= r@.len(),
                        !seen ==> forall|x: int| 0 <= x < m ==> r@[x]@ != id@,
                        seen ==> exists|x: int| 0 <= x < r@.len() && r@[x]@ == id@,
                    decreases r@.len() - m,
                {
                    if r[m] == *id {
                        seen = true;
                    }
                    m += 1;
                }
                if !seen {
                    r.push(id.clone());
                    assert(r@[r@.len() - 1]@ == id@);
                }
            }
            proof {
                assert forall|j: int|
                    0 <= j < i + 1 && self.runtime(#[trigger] self.records@[j].0@).operation is Some implies exists|m: int|
                        0 <= m < r@.len() && r@[m]@ == self.records@[j].0@ by {
                    if j < i {
                        let m = choose|m: int| 0 <= m < before.len() && before[m]@ == self.records@[j].0@;
                        assert(r@[m] == before[m]);
                    } else {
                        assert(self.records@[j].0 == *id);
                    }
                }
            }
            i += 1;
        }
        proof {
            assert forall|k: Seq<char>| #[trigger] self.runtime(k).operation is Some implies exists|x: int|
                0 <= x < r@.len() && r@[x]@ == k by {
                Self::lemma_lookup_found(self.records@, k);
                let j = choose|j: int| 0 <= j < self.records@.len() && self.records@[j].0@ == k;
                assert(self.runtime(self.records@[j].0@).operation is Some);
            }
        }
        r
    }

    /// A tunnel the manager has a record of appears among its records.
    proof fn lemma_lookup_found(records: Seq<(String, TunnelRuntime)>, k: Seq<char>)
        ensures
            lookup(records, k) is Some ==> exists|j: int| 0 <= j < records.len() && records[j].0@ == k,
        decreases records.len(),
    {
        if records.len() > 0 && records[0].0@ != k {
            Self::lemma_lookup_found(records.drop_first(), k);
            if lookup(records, k) is Some {
                let j = choose|j: int| 0 <= j < records.drop_first().len() && records.drop_first()[j].0@ == k;
                assert(records[j + 1] == records.drop_first()[j]);
            }
        }
    }
}


/// The record `begin_operation` leaves for a claimed tunnel.
pub open spec fn claimed(op: u128) -> TunnelRuntime {
    TunnelRuntime { status: TunnelStatus::Connecting, operation: Some(op), active: false, reconnect_pending: false }
}

/// Operations come in generations. Once a tunnel has been claimed for an operation,
/// another claim is refused and the operation is current; stopping the tunnel makes
/// that operation stale (so all its late outcomes are ignored) and frees the tunnel,
/// so that the next claim succeeds with another operation, which is the current one.
pub proof fn lemma_operation_generations(
    m0: TunnelManager,
    m1: TunnelManager,
    m2: TunnelManager,
    m3: TunnelManager,
    id: Seq<char>,
    first: u128,
    second: u128,
)
    requires
        m1.claimed_for(m0, id, first),
        m2.updated(m1, id, idle()),
        m3.claimed_for(m2, id, second),
    ensures
        busy(m1.runtime(id)),
        m1.is_current(id, first),
        !m2.is_current(id, first),
        !busy(m2.runtime(id)),
        m2.runtime(id).status == TunnelStatus::Stopped,
        m3.is_current(id, second),
        second != first,
        forall|k: Seq<char>| k != id ==> #[trigger] m3.runtime(k) == m0.runtime(k),
{
}

/// The port a remote forward listens on: the one asked for, or the one the server
/// allocated when port 0 was asked for.
pub fn active_remote_port(requested: u32, allocated: u32) -> (r: u32)
    ensures
        r == if requested == 0 {
            allocated
        } else {
            requested
        },
{
    if requested == 0 {
        allocated
    } else {
        requested
    }
}

} // verus!
