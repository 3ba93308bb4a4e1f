//! Where the configuration lives on disk and how tunnel passwords reach the
//! system credential store.

use vstd::prelude::*;
use crate::config::{AppConfig, Tunnel, clone_opt_string};
use crate::text::{owned, push_str};

verus! {

/// The service name under which tunnel passwords are stored.
pub const KEYRING_SERVICE: &'static str = "com.jiayx.tunnel-mate";

/// `base` joined with the relative file name `name`, as `Path::join` joins them.
pub open spec fn path_join(base: Seq<char>, name: Seq<char>) -> Seq<char> {
    if base.len() == 0 || base.last() == '/' {
        base + name
    } else {
        base + seq!['/'] + name
    }
}

/// Joins a relative file name onto a directory path.
pub fn join_path(base: &str, name: &str) -> (r: String)
    ensures
        r@ == path_join(base@, name@),
{
    let mut s = owned(base);
    let v = crate::text::chars_of(base);
    if v.len() > 0 && v[v.len() - 1] == '/' {
        push_str(&mut s, name);
    } else if v.len() == 0 {
        push_str(&mut s, name);
    } else {
        crate::text::push_char(&mut s, '/');
        push_str(&mut s, name);
    }
    s
}

/// The per-user configuration directory of the platform, from `dirs::config_dir`.
/// Which directory comes back depends on the machine and its environment; nothing is
/// stated of it.
#[verifier::external_body]
fn platform_config_dir() -> (r: Option<String>) {
    dirs::config_dir().map(|path| path.to_string_lossy().into_owned())
}

/// The store's directory for a platform configuration directory: `TunnelMate` in it,
/// or `./TunnelMate` where the platform has none.
pub open spec fn store_dir(dir: Option<Seq<char>>) -> Seq<char> {
    path_join(
        match dir {
            Some(d) => d,
            None => "."@,
        },
        "TunnelMate"@,
    )
}

/// The directory that holds the configuration and the event log.
pub struct ConfigStore {
    base_path: String,
}

impl ConfigStore {
    /// The directory this store reads and writes.
    pub closed spec fn base(self) -> Seq<char> {
        self.base_path@
    }

    /// The store under `TunnelMate` in the platform configuration directory, or under
    /// `./TunnelMate` when the platform has none.
    pub fn new() -> (r: Self)
        ensures
            exists|dir: Option<Seq<char>>| r.base() == #[trigger] store_dir(dir),
    {
        let dir = platform_config_dir();
        let ghost dv = crate::ssh_config::opt_view(dir);
        let r = Self::in_config_dir(dir);
        assert(r.base() == store_dir(dv));
        r
    }

    /// The store for a given platform configuration directory (`None`: the current one).
    pub fn in_config_dir(dir: Option<String>) -> (r: Self)
        ensures
            r.base() == path_join(
                match dir {
                    Some(d) => d@,
                    None => "."@,
                },
                "TunnelMate"@,
            ),
    {
        let base = match &dir {
            Some(d) => join_path(d.as_str(), "TunnelMate"),
            None => join_path(".", "TunnelMate"),
        };
        ConfigStore { base_path: base }
    }

    /// A store rooted at an explicit directory.
    pub fn from_base_path(base_path: String) -> (r: Self)
        ensures
            r.base() == base_path@,
    {
        ConfigStore { base_path }
    }

    /// The configuration file: `config.json` in the store's directory.
    pub fn get_config_path(&self) -> (r: String)
        ensures
            r@ == path_join(self.base(), "config.json"@),
    {
        join_path(self.base_path.as_str(), "config.json")
    }

    /// The event log: `events.json` in the store's directory.
    pub fn get_events_path(&self) -> (r: String)
        ensures
            r@ == path_join(self.base(), "events.json"@),
    {
        join_path(self.base_path.as_str(), "events.json")
    }

    /// Fills each tunnel's passwords from the credential store: the accounts of
    /// `secret_reads` are read in order, and `apply_secrets` fills the passwords from
    /// the answers. Every other field is kept. The result pairs each account read with
    /// the store's answer.
    pub fn hydrate_secrets(&self, config: &mut AppConfig) -> (r: Ghost<Seq<(Seq<char>, Result<String, StoreError>)>>)
        ensures
            r@.len() == secret_reads_spec(old(config).tunnels@).len(),
            forall|k: int| 0 <= k < r@.len() ==> (#[trigger] r@[k]).0 == secret_reads_spec(old(config).tunnels@)[k],
            filled_from(*final(config), *old(config), r@.map_values(|e: (Seq<char>, Result<String, StoreError>)| e.1)),
    {
        let reads = secret_reads(config);
        let ghost spec_reads = secret_reads_spec(config.tunnels@);
        let mut answers: Vec<Result<String, StoreError>> = Vec::new();
        let ghost mut log: Seq<(Seq<char>, Result<String, StoreError>)> = Seq::empty();
        let mut k: usize = 0;
        while k < reads.len()
            invariant
                k <= reads@.len(),
                reads@.map_values(|s: String| s@) == spec_reads,
                log.len() == k,
                answers@.len() == k,
                forall|j: int| 0 <= j < k ==> (#[trigger] log[j]).0 == spec_reads[j] && log[j].1 == answers@[j],
            decreases reads@.len() - k,
        {
            assert(reads@.map_values(|s: String| s@)[k as int] == reads@[k as int]@);
            let answer = read_answer(reads[k].as_str());
            proof {
                log = log.push((reads@[k as int]@, answer));
            }
            answers.push(answer);
            k += 1;
        }
        assert(answers@ =~= log.map_values(|e: (Seq<char>, Result<String, StoreError>)| e.1));
        assert(reads@.map_values(|s: String| s@).len() == reads@.len());
        assert(answers@.len() == 2 * config.tunnels@.len());
        apply_secrets(config, &answers);
        Ghost(log)
    }

    /// Writes each tunnel's passwords to the credential store and deletes the
    /// passwords of tunnels that `existing` (the configuration on disk) has and
    /// `config` no longer has. The writes are made in the order of `secret_writes`
    /// and the first failure is returned.
    pub fn persist_secrets(&self, config: &AppConfig, existing: Option<&AppConfig>) -> (r: Result<
        (),
        String,
    >)
        ensures
            r is Err ==> is_store_failure(r->Err_0@),
            secret_writes(*config, existing_view(existing)).len() == 0 ==> r is Ok,
            r is Err ==> exists|k: int|
                0 <= k < secret_writes(*config, existing_view(existing)).len() && write_failure(
                    r->Err_0@,
                    saving(#[trigger] secret_writes(*config, existing_view(existing))[k].1),
                ),
    {
        let plan = secret_plan(config, existing);
        let ghost writes = secret_writes(*config, existing_view(existing));
        assert(plan@.map_values(|w: (String, Option<String>)| write_view(w)).len() == plan@.len());
        let mut i: usize = 0;
        while i < plan.len()
            invariant
                i <= plan@.len(),
                writes == secret_writes(*config, existing_view(existing)),
                plan@.map_values(|w: (String, Option<String>)| write_view(w)) == writes,
                writes.len() == plan@.len(),
            decreases plan@.len() - i,
        {
            let (account, value) = &plan[i];
            let value_ref: Option<&str> = match value {
                Some(v) => Some(v.as_str()),
                None => None,
            };
            assert(writes[i as int] == write_view(plan@[i as int]));
            assert(str_opt_view(value_ref) == writes[i as int].1);
            match write_secret(account.as_str(), value_ref).0 {
                Ok(()) => {},
                Err(e) => {
                    assert(write_failure(e@, saving(writes[i as int].1)));
                    return Err(e);
                },
            }
            i += 1;
        }
        Ok(())
    }
}

/// The configuration on disk, as a value.
pub open spec fn existing_view(existing: Option<&AppConfig>) -> Option<AppConfig> {
    match existing {
        Some(e) => Some(*e),
        None => None,
    }
}

/// An optional text, as a value.
pub open spec fn str_opt_view(value: Option<&str>) -> Option<Seq<char>> {
    match value {
        Some(p) => Some(p@),
        None => None,
    }
}

/// A write stores a password (rather than deleting one): the value is present and
/// not empty.
pub open spec fn saving(value: Option<Seq<char>>) -> bool {
    value is Some && value->0.len() > 0
}

/// One of the messages of a failed credential write: the store could not be opened,
/// or (by what the write does) the password could not be saved or deleted.
pub open spec fn write_failure(msg: Seq<char>, saving: bool) -> bool {
    ||| (exists|d: Seq<char>| msg == "Failed to open credential store: "@ + d)
    ||| (saving && exists|d: Seq<char>| msg == "Failed to save credential: "@ + d)
    ||| (!saving && exists|d: Seq<char>| msg == "Failed to delete credential: "@ + d)
}

/// Two tunnels agree on every field but the two passwords.
pub open spec fn same_but_passwords(a: Tunnel, b: Tunnel) -> bool {
    a == Tunnel { ssh_password: a.ssh_password, jump_password: a.jump_password, ..b }
}

/// An optional password that, where present, is not empty.
pub open spec fn opt_nonempty(o: Option<String>) -> bool {
    o is Some ==> o->0@.len() > 0
}

/// The credential-store account of one password of a tunnel: `<tunnel id>:<name>`.
pub open spec fn account_of(tunnel_id: Seq<char>, name: Seq<char>) -> Seq<char> {
    tunnel_id + ":"@ + name
}

/// The credential-store account name of one password of a tunnel.
pub fn secret_account(tunnel_id: &str, name: &str) -> (r: String)
    ensures
        r@ == account_of(tunnel_id@, name@),
{
    let mut s = owned(tunnel_id);
    push_str(&mut s, ":");
    push_str(&mut s, name);
    s
}

/// The credential-store accounts the passwords of `tunnels` are read from, in
/// order: for each tunnel, `<id>:ssh_password` then `<id>:jump_password`.
pub open spec fn secret_reads_spec(tunnels: Seq<Tunnel>) -> Seq<Seq<char>> {
    Seq::new(
        2 * tunnels.len(),
        |k: int|
            account_of(
                tunnels[k / 2].id@,
                if k % 2 == 0 {
                    "ssh_password"@
                } else {
                    "jump_password"@
                },
            ),
    )
}

/// `filled` is `config` with each tunnel's passwords taken from the store's answers:
/// tunnel `i` has its SSH password from `answers[2i]` and its jump-host password from
/// `answers[2i + 1]`, as `secret_of` reads them; every other field is kept.
pub open spec fn filled_from(filled: AppConfig, config: AppConfig, answers: Seq<Result<String, StoreError>>) -> bool {
    &&& filled.version == config.version
    &&& filled.groups == config.groups
    &&& filled.settings == config.settings
    &&& filled.tunnels@.len() == config.tunnels@.len()
    &&& forall|i: int|
        0 <= i < config.tunnels@.len() ==> {
            &&& same_but_passwords(#[trigger] filled.tunnels@[i], config.tunnels@[i])
            &&& crate::ssh_config::opt_view(filled.tunnels@[i].ssh_password) == secret_of(answers[2 * i])
            &&& crate::ssh_config::opt_view(filled.tunnels@[i].jump_password) == secret_of(answers[2 * i + 1])
        }
}

/// The accounts to read the passwords of a configuration from.
pub fn secret_reads(config: &AppConfig) -> (r: Vec<String>)
    ensures
        r@.map_values(|s: String| s@) == secret_reads_spec(config.tunnels@),
{
    let ghost spec = secret_reads_spec(config.tunnels@);
    let mut r: Vec<String> = Vec::new();
    let mut i: usize = 0;
    while i < config.tunnels.len()
        invariant
            i <= config.tunnels@.len(),
            spec == secret_reads_spec(config.tunnels@),
            r@.len() == 2 * i,
            forall|k: int| 0 <= k < 2 * i ==> (#[trigger] r@[k])@ == spec[k],
        decreases config.tunnels@.len() - i,
    {
        let id = config.tunnels[i].id.as_str();
        r.push(secret_account(id, "ssh_password"));
        r.push(secret_account(id, "jump_password"));
        proof {
            reveal_strlit("ssh_password");
            reveal_strlit("jump_password");
            assert((2 * i) / 2 == i && (2 * i) % 2 == 0);
            assert((2 * i + 1) / 2 == i && (2 * i + 1) % 2 == 1);
            assert(r@[2 * i]@ == spec[2 * i]);
            assert(r@[2 * i + 1]@ == spec[2 * i + 1]);
        }
        i += 1;
    }
    assert(r@.map_values(|s: String| s@) =~= spec);
    r
}

/// Fills each tunnel's passwords from the store's answers, two per tunnel in the
/// order of `secret_reads`.
pub fn apply_secrets(config: &mut AppConfig, answers: &Vec<Result<String, StoreError>>)
    requires
        answers@.len() == 2 * old(config).tunnels@.len(),
    ensures
        filled_from(*final(config), *old(config), answers@),
{
    let n = config.tunnels.len();
    let m = answers.len();
    let mut i: usize = 0;
    while i < n
        invariant
            n == config.tunnels@.len(),
            old(config).tunnels@.len() == n,
            answers@.len() == 2 * n,
            m == answers@.len(),
            0 <= i <= n,
            config.version == old(config).version,
            config.groups == old(config).groups,
            config.settings == old(config).settings,
            forall|j: int|
                0 <= j < i ==> {
                    &&& same_but_passwords(#[trigger] config.tunnels@[j], old(config).tunnels@[j])
                    &&& crate::ssh_config::opt_view(config.tunnels@[j].ssh_password) == secret_of(answers@[2 * j])
                    &&& crate::ssh_config::opt_view(config.tunnels@[j].jump_password) == secret_of(
                        answers@[2 * j + 1],
                    )
                },
            forall|j: int| i <= j < n ==> #[trigger] config.tunnels@[j] == old(config).tunnels@[j],
        decreases n - i,
    {
        let ssh = secret_from_answer(&answers[2 * i]);
        let jump = secret_from_answer(&answers[2 * i + 1]);
        let mut t = config.tunnels[i].clone();
        t.ssh_password = ssh;
        t.jump_password = jump;
        config.tunnels.set(i, t);
        i += 1;
    }
}

/// A tunnel id occurs among `tunnels`.
pub open spec fn has_tunnel_id(tunnels: Seq<Tunnel>, id: Seq<char>) -> bool {
    exists|j: int| 0 <= j < tunnels.len() && (#[trigger] tunnels[j]).id@ == id
}

/// The deletions for the tunnels of `old_tunnels` that `current` lacks, in order.
pub open spec fn deletions(old_tunnels: Seq<Tunnel>, current: Seq<Tunnel>) -> Seq<
    (Seq<char>, Option<Seq<char>>),
>
    decreases old_tunnels.len(),
{
    if old_tunnels.len() == 0 {
        Seq::empty()
    } else {
        let rest = deletions(old_tunnels.drop_last(), current);
        let t = old_tunnels.last();
        if has_tunnel_id(current, t.id@) {
            rest
        } else {
            rest + seq![
                (account_of(t.id@, "ssh_password"@), None),
                (account_of(t.id@, "jump_password"@), None),
            ]
        }
    }
}

/// The text of an optional password as it is written (`None` deletes).
pub open spec fn opt_view(o: Option<String>) -> Option<Seq<char>> {
    match o {
        Some(s) => Some(s@),
        None => None,
    }
}

/// The writes for the tunnels of `current`, in order.
pub open spec fn updates(current: Seq<Tunnel>) -> Seq<(Seq<char>, Option<Seq<char>>)>
    decreases current.len(),
{
    if current.len() == 0 {
        Seq::empty()
    } else {
        let t = current.last();
        updates(current.drop_last()) + seq![
            (account_of(t.id@, "ssh_password"@), opt_view(t.ssh_password)),
            (account_of(t.id@, "jump_password"@), opt_view(t.jump_password)),
        ]
    }
}

/// Every credential write that saving `config` makes, in order.
pub open spec fn secret_writes(config: AppConfig, existing: Option<AppConfig>) -> Seq<
    (Seq<char>, Option<Seq<char>>),
> {
    match existing {
        Some(e) => deletions(e.tunnels@, config.tunnels@) + updates(config.tunnels@),
        None => updates(config.tunnels@),
    }
}

/// The view of a planned write.
pub open spec fn write_view(w: (String, Option<String>)) -> (Seq<char>, Option<Seq<char>>) {
    (w.0@, opt_view(w.1))
}

fn has_id(tunnels: &Vec<Tunnel>, id: &String) -> (r: bool)
    ensures
        r == has_tunnel_id(tunnels@, id@),
{
    let mut j: usize = 0;
    while j < tunnels.len()
        invariant
            j <= tunnels@.len(),
            forall|k: int| 0 <= k < j ==> (#[trigger] tunnels@[k]).id@ != id@,
        decreases tunnels@.len() - j,
    {
        if tunnels[j].id == *id {
            return true;
        }
        j += 1;
    }
    false
}

/// The credential writes of `secret_writes`, as values.
pub fn secret_plan(config: &AppConfig, existing: Option<&AppConfig>) -> (r: Vec<
    (String, Option<String>),
>)
    ensures
        r@.map_values(|w: (String, Option<String>)| write_view(w)) == secret_writes(
            *config,
            match existing {
                Some(e) => Some(*e),
                None => None,
            },
        ),
{
    let mut plan: Vec<(String, Option<String>)> = Vec::new();
    if let Some(e) = existing {
        let mut i: usize = 0;
        while i < e.tunnels.len()
            invariant
                i <= e.tunnels@.len(),
                plan@.map_values(|w: (String, Option<String>)| write_view(w)) == deletions(
                    e.tunnels@.subrange(0, i as int),
                    config.tunnels@,
                ),
            decreases e.tunnels@.len() - i,
        {
            let t = &e.tunnels[i];
            proof {
                assert(e.tunnels@.subrange(0, i + 1).drop_last() == e.tunnels@.subrange(
                    0,
                    i as int,
                ));
            }
            if !has_id(&config.tunnels, &t.id) {
                plan.push((secret_account(t.id.as_str(), "ssh_password"), None));
                plan.push((secret_account(t.id.as_str(), "jump_password"), None));
            }
            i += 1;
        }
        assert(e.tunnels@.subrange(0, e.tunnels@.len() as int) == e.tunnels@);
    }
    let ghost prefix = plan@.map_values(|w: (String, Option<String>)| write_view(w));
    let mut i: usize = 0;
    while i < config.tunnels.len()
        invariant
            i <= config.tunnels@.len(),
            plan@.map_values(|w: (String, Option<String>)| write_view(w)) == prefix + updates(
                config.tunnels@.subrange(0, i as int),
            ),
        decreases config.tunnels@.len() - i,
    {
        let t = &config.tunnels[i];
        proof {
            assert(config.tunnels@.subrange(0, i + 1).drop_last() == config.tunnels@.subrange(
                0,
                i as int,
            ));
        }
        let ghost before = plan@;
        let a = (secret_account(t.id.as_str(), "ssh_password"), clone_opt_string(&t.ssh_password));
        let b = (secret_account(t.id.as_str(), "jump_password"), clone_opt_string(&t.jump_password));
        plan.push(a);
        plan.push(b);
        proof {
            let f = |w: (String, Option<String>)| write_view(w);
            assert(plan@ == before.push(a).push(b));
            assert(plan@.map_values(f) =~= before.map_values(f) + seq![write_view(a), write_view(b)]);
            let u = config.tunnels@.subrange(0, i + 1);
            assert(u.last() == *t);
        }
        i += 1;
    }
    assert(config.tunnels@.subrange(0, config.tunnels@.len() as int) == config.tunnels@);
    plan
}

/// Why a credential-store operation failed, with the store's message.
pub enum StoreError {
    /// The store holds no credential for the entry.
    NoEntry(String),
    /// Any other failure.
    Failed(String),
}

/// A change made to a credential: a password saved, or the credential deleted.
pub enum StoreOp {
    Save(String),
    Delete,
}

/// An entry of the system credential store.
#[verifier::external_type_specification]
#[verifier::external_body]
pub struct ExEntry(keyring::Entry);

/// Opens the entry for `service` and `user` with `keyring::Entry::new`. Whether it
/// opens depends on the platform store; nothing more is stated.
#[verifier::external_body]
fn open_entry(service: &str, user: &str) -> (r: Result<keyring::Entry, StoreError>) {
    keyring::Entry::new(service, user).map_err(|e| match e {
        error @ keyring::Error::NoEntry => StoreError::NoEntry(error.to_string()),
        other => StoreError::Failed(other.to_string()),
    })
}

/// Reads the password of an entry with `keyring::Entry::get_password`; what the store
/// holds is not known here.
#[verifier::external_body]
fn entry_password(entry: &keyring::Entry) -> (r: Result<String, StoreError>) {
    entry.get_password().map_err(|e| match e {
        error @ keyring::Error::NoEntry => StoreError::NoEntry(error.to_string()),
        other => StoreError::Failed(other.to_string()),
    })
}

/// Stores a password with `keyring::Entry::set_password`. The second part records
/// that the change made saved `password`; whether it succeeds is not stated.
#[verifier::external_body]
fn set_entry_password(entry: &keyring::Entry, password: &str) -> (r: (Result<(), StoreError>, Ghost<StoreOp>))
    ensures
        r.1@ is Save && r.1@->Save_0@ == password@,
{
    let r = entry.set_password(password).map_err(|e| match e {
        error @ keyring::Error::NoEntry => StoreError::NoEntry(error.to_string()),
        other => StoreError::Failed(other.to_string()),
    });
    (r, Ghost(StoreOp::Save(password.to_string())))
}

/// Deletes the credential of an entry with `keyring::Entry::delete_credential`. The
/// second part records that the change made was a deletion; whether it succeeds is
/// not stated.
#[verifier::external_body]
fn delete_entry(entry: &keyring::Entry) -> (r: (Result<(), StoreError>, Ghost<StoreOp>))
    ensures
        r.1@ is Delete,
{
    let r = entry.delete_credential().map_err(|e| match e {
        error @ keyring::Error::NoEntry => StoreError::NoEntry(error.to_string()),
        other => StoreError::Failed(other.to_string()),
    });
    (r, Ghost(StoreOp::Delete))
}

fn error_text(e: &StoreError) -> (r: String)
    ensures
        r@ == store_error_text(*e),
{
    match e {
        StoreError::NoEntry(m) => m.clone(),
        StoreError::Failed(m) => m.clone(),
    }
}

/// The message a store failure carries.
pub open spec fn store_error_text(e: StoreError) -> Seq<char> {
    match e {
        StoreError::NoEntry(m) => m@,
        StoreError::Failed(m) => m@,
    }
}

/// One of the messages a failed credential write produces.
pub open spec fn is_store_failure(msg: Seq<char>) -> bool {
    ||| (exists|d: Seq<char>| msg == "Failed to open credential store: "@ + d)
    ||| (exists|d: Seq<char>| msg == "Failed to save credential: "@ + d)
    ||| (exists|d: Seq<char>| msg == "Failed to delete credential: "@ + d)
}

fn prefixed(prefix: &str, detail: &String) -> (r: String)
    ensures
        r@ == prefix@ + detail@,
{
    let mut s = owned(prefix);
    push_str(&mut s, detail.as_str());
    s
}

/// The password an answer of the store gives: the one it holds, where that is not
/// empty; nothing for an empty password or a failed read.
pub open spec fn secret_of(answer: Result<String, StoreError>) -> Option<Seq<char>> {
    match answer {
        Ok(p) => if p@.len() > 0 {
            Some(p@)
        } else {
            None
        },
        Err(_) => None,
    }
}

/// The password an answer of the store gives.
pub fn secret_from_answer(answer: &Result<String, StoreError>) -> (r: Option<String>)
    ensures
        crate::ssh_config::opt_view(r) == secret_of(*answer),
{
    match answer {
        Ok(p) => if p.as_str().is_empty() {
            None
        } else {
            Some(p.clone())
        },
        Err(_) => None,
    }
}

/// The store's answer for an account: its password, or why it could not be read
/// (including an entry that could not be opened).
pub fn read_answer(account: &str) -> (r: Result<String, StoreError>) {
    match open_entry(KEYRING_SERVICE, account) {
        Ok(entry) => entry_password(&entry),
        Err(e) => Err(e),
    }
}

/// The password stored for an account, when the store holds a non-empty one. The
/// second part is the store's answer.
pub fn read_secret(account: &str) -> (r: (Option<String>, Ghost<Result<String, StoreError>>))
    ensures
        crate::ssh_config::opt_view(r.0) == secret_of(r.1@),
        opt_nonempty(r.0),
{
    let answer = read_answer(account);
    let secret = secret_from_answer(&answer);
    (secret, Ghost(answer))
}

/// The error message of a result, or nothing for success.
pub open spec fn failure_of(r: Result<(), String>) -> Option<Seq<char>> {
    match r {
        Ok(()) => None,
        Err(m) => Some(m@),
    }
}

/// What the store's answer to a save makes of it: its failure is reported.
pub open spec fn save_outcome_spec(answer: Result<(), StoreError>) -> Option<Seq<char>> {
    match answer {
        Ok(()) => None,
        Err(e) => Some("Failed to save credential: "@ + store_error_text(e)),
    }
}

/// What the store's answer to a deletion makes of it: a credential that was not
/// there is no failure; any other failure is reported.
pub open spec fn delete_outcome_spec(answer: Result<(), StoreError>) -> Option<Seq<char>> {
    match answer {
        Ok(()) => None,
        Err(StoreError::NoEntry(_)) => None,
        Err(StoreError::Failed(m)) => Some("Failed to delete credential: "@ + m@),
    }
}

/// Judges the store's answer to a save.
pub fn save_outcome(answer: &Result<(), StoreError>) -> (r: Result<(), String>)
    ensures
        failure_of(r) == save_outcome_spec(*answer),
{
    match answer {
        Ok(()) => Ok(()),
        Err(e) => {
            let d = error_text(e);
            Err(prefixed("Failed to save credential: ", &d))
        },
    }
}

/// Judges the store's answer to a deletion.
pub fn delete_outcome(answer: &Result<(), StoreError>) -> (r: Result<(), String>)
    ensures
        failure_of(r) == delete_outcome_spec(*answer),
{
    match answer {
        Ok(()) => Ok(()),
        Err(StoreError::NoEntry(_)) => Ok(()),
        Err(StoreError::Failed(m)) => Err(prefixed("Failed to delete credential: ", m)),
    }
}

/// What happened when writing one credential: the entry could not be opened, or a
/// change was made and the store answered.
pub enum WriteTrace {
    NotOpened(StoreError),
    Changed(StoreOp, Result<(), StoreError>),
}

/// The change a write makes: save a non-empty password, otherwise delete.
pub open spec fn intended_op(op: StoreOp, value: Option<Seq<char>>) -> bool {
    if saving(value) {
        op is Save && op->Save_0@ == value->0
    } else {
        op is Delete
    }
}

/// The result of a write, from what happened.
pub open spec fn write_outcome(t: WriteTrace) -> Option<Seq<char>> {
    match t {
        WriteTrace::NotOpened(e) => Some("Failed to open credential store: "@ + store_error_text(e)),
        WriteTrace::Changed(StoreOp::Save(_), a) => save_outcome_spec(a),
        WriteTrace::Changed(StoreOp::Delete, a) => delete_outcome_spec(a),
    }
}

/// Stores a non-empty password for an account, or deletes the account's credential
/// when the value is absent or empty; a missing credential is no failure. The second
/// part records what happened: the change made and the store's answer.
pub fn write_secret(account: &str, value: Option<&str>) -> (r: (Result<(), String>, Ghost<WriteTrace>))
    ensures
        failure_of(r.0) == write_outcome(r.1@),
        r.1@ matches WriteTrace::Changed(op, _) ==> intended_op(op, str_opt_view(value)),
        r.0 is Err ==> is_store_failure(r.0->Err_0@),
        r.0 is Err ==> write_failure(r.0->Err_0@, saving(str_opt_view(value))),
{
    let entry = match open_entry(KEYRING_SERVICE, account) {
        Ok(e) => e,
        Err(e) => {
            let d = error_text(&e);
            let m = prefixed("Failed to open credential store: ", &d);
            return (Err(m), Ghost(WriteTrace::NotOpened(e)));
        },
    };
    let password = match value {
        Some(p) => if p.is_empty() {
            None
        } else {
            Some(p)
        },
        None => None,
    };
    match password {
        Some(p) => {
            let (answer, op) = set_entry_password(&entry, p);
            let r = save_outcome(&answer);
            proof {
                if let Err(e) = answer {
                    assert(r->Err_0@ == "Failed to save credential: "@ + store_error_text(e));
                }
            }
            (r, Ghost(WriteTrace::Changed(op@, answer)))
        },
        None => {
            let (answer, op) = delete_entry(&entry);
            let r = delete_outcome(&answer);
            proof {
                if let Err(StoreError::Failed(m)) = answer {
                    assert(r->Err_0@ == "Failed to delete credential: "@ + m@);
                }
            }
            (r, Ghost(WriteTrace::Changed(op@, answer)))
        },
    }
}

/// One of the keys under which a configuration file would hold a password.
pub open spec fn password_key(k: Seq<char>) -> bool {
    k == "sshPassword"@ || k == "jumpPassword"@
}

/// One of the tunnel objects has a password key: `ts` lists the keys of each entry
/// of a configuration file's `tunnels` array.
pub open spec fn any_password_key(ts: Seq<Seq<String>>) -> bool {
    exists|i: int, j: int| 0 <= i < ts.len() && 0 <= j < ts[i].len() && password_key(#[trigger] ts[i][j]@)
}

/// A configuration file holds a password: one of its tunnel objects has a password
/// key. `tunnel_keys` lists the keys of each entry of the file's `tunnels` array
/// (none for an entry that is no object), or is `None` when there is no such array.
pub open spec fn holds_passwords(tunnel_keys: Option<Seq<Seq<String>>>) -> bool {
    match tunnel_keys {
        Some(ts) => any_password_key(ts),
        None => false,
    }
}

/// Refuses a configuration file whose tunnels carry passwords: passwords live in the
/// credential store only.
pub fn reject_persisted_secrets(tunnel_keys: &Option<Vec<Vec<String>>>) -> (r: Result<(), String>)
    ensures
        r is Err <==> holds_passwords(
            match tunnel_keys {
                Some(ts) => Some(ts@.map_values(|k: Vec<String>| k@)),
                None => None,
            },
        ),
        r is Err ==> r->Err_0@ == "Config file must not contain persisted SSH passwords"@,
{
    let ghost view = match tunnel_keys {
        Some(ts) => Some(ts@.map_values(|k: Vec<String>| k@)),
        None => None,
    };
    match tunnel_keys {
        None => Ok(()),
        Some(ts) => {
            let ghost tv = ts@.map_values(|k: Vec<String>| k@);
            assert(view == Some(tv));
            let ssh = owned("sshPassword");
            let jump = owned("jumpPassword");
            let mut i: usize = 0;
            while i < ts.len()
                invariant
                    i <= ts@.len(),
                    tv == ts@.map_values(|k: Vec<String>| k@),
                    view == Some(tv),
                    view == (match tunnel_keys {
                        Some(t) => Some(t@.map_values(|k: Vec<String>| k@)),
                        None => None,
                    }),
                    ssh@ == "sshPassword"@,
                    jump@ == "jumpPassword"@,
                    forall|a: int, b: int| 0 <= a < i && 0 <= b < tv[a].len() ==> !password_key(#[trigger] tv[a][b]@),
                decreases ts@.len() - i,
            {
                let keys = &ts[i];
                let mut j: usize = 0;
                while j < keys.len()
                    invariant
                        i < ts@.len(),
                        j <= keys@.len(),
                        keys@ == tv[i as int],
                        tv.len() == ts@.len(),
                        view == Some(tv),
                        view == (match tunnel_keys {
                            Some(t) => Some(t@.map_values(|k: Vec<String>| k@)),
                            None => None,
                        }),
                        ssh@ == "sshPassword"@,
                        jump@ == "jumpPassword"@,
                        forall|b: int| 0 <= b < j ==> !password_key(#[trigger] keys@[b]@),
                    decreases keys@.len() - j,
                {
                    if keys[j] == ssh || keys[j] == jump {
                        assert(tv[i as int][j as int] == keys@[j as int]);
                        assert(password_key(tv[i as int][j as int]@));
                        assert(holds_passwords(view));
                        return Err(owned("Config file must not contain persisted SSH passwords"));
                    }
                    j += 1;
                }
                i += 1;
            }
            Ok(())
        },
    }
}

/// A tunnel as the configuration file holds it: without its passwords.
pub open spec fn without_passwords(t: Tunnel) -> Tunnel {
    Tunnel { ssh_password: None, jump_password: None, ..t }
}

/// The configuration as it is written to the configuration file and to backups: the
/// same configuration with every password left out (passwords live in the credential
/// store only).
pub fn persisted_form(config: &AppConfig) -> (r: AppConfig)
    ensures
        r.version == config.version,
        r.groups@ == config.groups@,
        r.settings == config.settings,
        r.tunnels@ == config.tunnels@.map_values(|t: Tunnel| without_passwords(t)),
        forall|i: int|
            0 <= i < r.tunnels@.len() ==> (#[trigger] r.tunnels@[i]).ssh_password is None
                && r.tunnels@[i].jump_password is None,
{
    let mut groups: Vec<crate::config::Group> = Vec::new();
    let mut i: usize = 0;
    while i < config.groups.len()
        invariant
            i <= config.groups@.len(),
            groups@ == config.groups@.subrange(0, i as int),
        decreases config.groups@.len() - i,
    {
        groups.push(config.groups[i].clone());
        assert(config.groups@.subrange(0, i + 1) =~= config.groups@.subrange(0, i as int).push(config.groups@[i as int]));
        i += 1;
    }
    assert(config.groups@.subrange(0, config.groups@.len() as int) =~= config.groups@);
    let mut tunnels: Vec<Tunnel> = Vec::new();
    let mut k: usize = 0;
    while k < config.tunnels.len()
        invariant
            k <= config.tunnels@.len(),
            tunnels@.len() == k,
            forall|j: int| 0 <= j < k ==> #[trigger] tunnels@[j] == without_passwords(config.tunnels@[j]),
        decreases config.tunnels@.len() - k,
    {
        let mut t = config.tunnels[k].clone();
        t.ssh_password = None;
        t.jump_password = None;
        tunnels.push(t);
        k += 1;
    }
    assert(tunnels@ =~= config.tunnels@.map_values(|t: Tunnel| without_passwords(t)));
    AppConfig { version: config.version, groups, tunnels, settings: config.settings.clone() }
}


/// A credential store as a value: the password held for each account.
pub type StoreContents = Map<Seq<char>, Seq<char>>;

/// The store after `writes`, in order: a non-empty password is saved, anything else
/// deletes the account's credential.
pub open spec fn store_after(store: StoreContents, writes: Seq<(Seq<char>, Option<Seq<char>>)>) -> StoreContents
    decreases writes.len(),
{
    if writes.len() == 0 {
        store
    } else {
        let s = store_after(store, writes.drop_last());
        let w = writes.last();
        if saving(w.1) {
            s.insert(w.0, w.1->0)
        } else {
            s.remove(w.0)
        }
    }
}

/// What reading an account of the store gives: the password it holds, where that is
/// not empty.
pub open spec fn stored(store: StoreContents, account: Seq<char>) -> Option<Seq<char>> {
    if store.dom().contains(account) && store[account].len() > 0 {
        Some(store[account])
    } else {
        None
    }
}

/// A password as it comes back from the store: kept where it is not empty.
pub open spec fn nonempty_text(o: Option<String>) -> Option<Seq<char>> {
    match o {
        Some(p) => if p@.len() > 0 {
            Some(p@)
        } else {
            None
        },
        None => None,
    }
}

/// The value the last write to `account` among `writes` gives it, if any writes it.
pub open spec fn last_write(writes: Seq<(Seq<char>, Option<Seq<char>>)>, account: Seq<char>) -> Option<
    Option<Seq<char>>,
>
    decreases writes.len(),
{
    if writes.len() == 0 {
        None
    } else if writes.last().0 == account {
        Some(writes.last().1)
    } else {
        last_write(writes.drop_last(), account)
    }
}

/// A written value as it is read back.
pub open spec fn read_back(v: Option<Seq<char>>) -> Option<Seq<char>> {
    if saving(v) {
        v
    } else {
        None
    }
}

proof fn lemma_store_after(store: StoreContents, writes: Seq<(Seq<char>, Option<Seq<char>>)>, account: Seq<char>)
    ensures
        stored(store_after(store, writes), account) == match last_write(writes, account) {
            Some(v) => read_back(v),
            None => stored(store, account),
        },
    decreases writes.len(),
{
    if writes.len() > 0 {
        lemma_store_after(store, writes.drop_last(), account);
    }
}

proof fn lemma_last_write_append(
    a: Seq<(Seq<char>, Option<Seq<char>>)>,
    b: Seq<(Seq<char>, Option<Seq<char>>)>,
    account: Seq<char>,
)
    ensures
        last_write(a + b, account) == match last_write(b, account) {
            Some(v) => Some(v),
            None => last_write(a, account),
        },
    decreases b.len(),
{
    if b.len() == 0 {
        assert(a + b =~= a);
    } else {
        assert((a + b).drop_last() =~= a + b.drop_last());
        assert((a + b).last() == b.last());
        lemma_last_write_append(a, b.drop_last(), account);
    }
}

proof fn lemma_accounts_apart(id1: Seq<char>, id2: Seq<char>, n1: Seq<char>, n2: Seq<char>)
    requires
        n1 == "ssh_password"@ || n1 == "jump_password"@,
        n2 == "ssh_password"@ || n2 == "jump_password"@,
        account_of(id1, n1) == account_of(id2, n2),
    ensures
        id1 == id2 && n1 == n2,
{
    reveal_strlit("ssh_password");
    reveal_strlit("jump_password");
    reveal_strlit(":");
    let s = account_of(id1, n1);
    let t = account_of(id2, n2);
    assert(s.len() == id1.len() + 1 + n1.len());
    assert(t.len() == id2.len() + 1 + n2.len());
    if n1 == n2 {
        assert(id1.len() == id2.len());
        assert(s.subrange(0, id1.len() as int) =~= id1);
        assert(t.subrange(0, id2.len() as int) =~= id2);
    } else if n1 == "ssh_password"@ {
        assert(n2 == "jump_password"@);
        assert(s[id1.len() as int] == ':');
        assert(t[id2.len() + 1 as int] == n2[0]);
        assert(n2[0] == 'j');
        assert(id1.len() == id2.len() + 1);
    } else {
        assert(n1 == "jump_password"@);
        assert(t[id2.len() as int] == ':');
        assert(s[id1.len() + 1 as int] == n1[0]);
        assert(n1[0] == 'j');
        assert(id2.len() == id1.len() + 1);
    }
}

proof fn lemma_last_write_pair(
    w0: (Seq<char>, Option<Seq<char>>),
    w1: (Seq<char>, Option<Seq<char>>),
    account: Seq<char>,
)
    ensures
        last_write(seq![w0, w1], account) == if w1.0 == account {
            Some(w1.1)
        } else if w0.0 == account {
            Some(w0.1)
        } else {
            None
        },
{
    let p = seq![w0, w1];
    assert(p.drop_last() =~= seq![w0]);
    assert(seq![w0].drop_last() =~= Seq::<(Seq<char>, Option<Seq<char>>)>::empty());
    reveal_with_fuel(last_write, 3);
}

/// The ids of `tunnels` are distinct.
pub open spec fn distinct_ids(tunnels: Seq<Tunnel>) -> bool {
    forall|i: int, j: int| 0 <= i < j < tunnels.len() ==> (#[trigger] tunnels[i]).id@ != (#[trigger] tunnels[j]).id@
}

proof fn lemma_updates_last_write(tunnels: Seq<Tunnel>, i: int)
    requires
        distinct_ids(tunnels),
        0 <= i < tunnels.len(),
    ensures
        last_write(updates(tunnels), account_of(tunnels[i].id@, "ssh_password"@)) == Some(
            opt_view(tunnels[i].ssh_password),
        ),
        last_write(updates(tunnels), account_of(tunnels[i].id@, "jump_password"@)) == Some(
            opt_view(tunnels[i].jump_password),
        ),
    decreases tunnels.len(),
{
    reveal_strlit("ssh_password");
    reveal_strlit("jump_password");
    assert("ssh_password"@.len() != "jump_password"@.len());
    let t = tunnels.last();
    let front = tunnels.drop_last();
    let ssh = account_of(tunnels[i].id@, "ssh_password"@);
    let jump = account_of(tunnels[i].id@, "jump_password"@);
    let tail = seq![
        (account_of(t.id@, "ssh_password"@), opt_view(t.ssh_password)),
        (account_of(t.id@, "jump_password"@), opt_view(t.jump_password)),
    ];
    assert(updates(tunnels) == updates(front) + tail);
    lemma_last_write_append(updates(front), tail, ssh);
    lemma_last_write_append(updates(front), tail, jump);
    lemma_last_write_pair(tail[0], tail[1], ssh);
    lemma_last_write_pair(tail[0], tail[1], jump);
    assert(tail =~= seq![tail[0], tail[1]]);
    if account_of(t.id@, "jump_password"@) == ssh {
        lemma_accounts_apart(t.id@, tunnels[i].id@, "jump_password"@, "ssh_password"@);
    }
    if i == tunnels.len() - 1 {
        assert(tunnels[i] == t);
    } else {
        assert(front[i] == tunnels[i]);
        assert(tunnels[i].id@ != t.id@);
        if account_of(t.id@, "ssh_password"@) == ssh {
            lemma_accounts_apart(t.id@, tunnels[i].id@, "ssh_password"@, "ssh_password"@);
        }
        if account_of(t.id@, "jump_password"@) == jump {
            lemma_accounts_apart(t.id@, tunnels[i].id@, "jump_password"@, "jump_password"@);
        }
        if account_of(t.id@, "ssh_password"@) == jump {
            lemma_accounts_apart(t.id@, tunnels[i].id@, "ssh_password"@, "jump_password"@);
        }
        assert forall|a: int, b: int| 0 <= a < b < front.len() implies (#[trigger] front[a]).id@
            != (#[trigger] front[b]).id@ by {
            assert(front[a] == tunnels[a] && front[b] == tunnels[b]);
        }
        lemma_updates_last_write(front, i);
    }
}

/// Saving a configuration and loading it back gives the same configuration, but for
/// passwords that were empty, which come back absent. Saving writes the file in its
/// persisted form and makes the credential writes of `secret_writes` to a store that
/// held `before`; loading reads the accounts of `secret_reads_spec` from the store,
/// which answers each with what it holds, and fills them in with `filled_from`.
/// The tunnel ids must be distinct (two tunnels with one id share their accounts).
pub proof fn lemma_save_then_load(
    config: AppConfig,
    existing: Option<AppConfig>,
    before: StoreContents,
    persisted: AppConfig,
    answers: Seq<Result<String, StoreError>>,
    loaded: AppConfig,
)
    requires
        distinct_ids(config.tunnels@),
        persisted.version == config.version,
        persisted.groups@ == config.groups@,
        persisted.settings == config.settings,
        persisted.tunnels@ == config.tunnels@.map_values(|t: Tunnel| without_passwords(t)),
        answers.len() == secret_reads_spec(persisted.tunnels@).len(),
        forall|k: int|
            0 <= k < answers.len() ==> secret_of(#[trigger] answers[k]) == stored(
                store_after(before, secret_writes(config, existing)),
                secret_reads_spec(persisted.tunnels@)[k],
            ),
        filled_from(loaded, persisted, answers),
    ensures
        loaded.version == config.version,
        loaded.groups@ == config.groups@,
        loaded.settings == config.settings,
        loaded.tunnels@.len() == config.tunnels@.len(),
        forall|i: int|
            0 <= i < config.tunnels@.len() ==> {
                &&& same_but_passwords(#[trigger] loaded.tunnels@[i], config.tunnels@[i])
                &&& opt_view(loaded.tunnels@[i].ssh_password) == nonempty_text(config.tunnels@[i].ssh_password)
                &&& opt_view(loaded.tunnels@[i].jump_password) == nonempty_text(config.tunnels@[i].jump_password)
            },
{
    let ts = config.tunnels@;
    let writes = secret_writes(config, existing);
    let after = store_after(before, writes);
    assert(loaded.groups == persisted.groups);
    assert forall|i: int| 0 <= i < ts.len() implies {
        &&& same_but_passwords(#[trigger] loaded.tunnels@[i], ts[i])
        &&& opt_view(loaded.tunnels@[i].ssh_password) == nonempty_text(ts[i].ssh_password)
        &&& opt_view(loaded.tunnels@[i].jump_password) == nonempty_text(ts[i].jump_password)
    } by {
        let p = persisted.tunnels@[i];
        assert(p == without_passwords(ts[i]));
        assert(same_but_passwords(loaded.tunnels@[i], p));
        let reads = secret_reads_spec(persisted.tunnels@);
        assert((2 * i) / 2 == i && (2 * i) % 2 == 0);
        assert((2 * i + 1) / 2 == i && (2 * i + 1) % 2 == 1);
        assert(reads[2 * i] == account_of(ts[i].id@, "ssh_password"@));
        assert(reads[2 * i + 1] == account_of(ts[i].id@, "jump_password"@));
        lemma_updates_last_write(ts, i);
        lemma_store_after(before, writes, reads[2 * i]);
        lemma_store_after(before, writes, reads[2 * i + 1]);
        match existing {
            Some(e) => {
                lemma_last_write_append(deletions(e.tunnels@, ts), updates(ts), reads[2 * i]);
                lemma_last_write_append(deletions(e.tunnels@, ts), updates(ts), reads[2 * i + 1]);
            },
            None => {},
        }
        assert(secret_of(answers[2 * i]) == stored(after, reads[2 * i]));
        assert(secret_of(answers[2 * i + 1]) == stored(after, reads[2 * i + 1]));
    }
}

} // verus!

