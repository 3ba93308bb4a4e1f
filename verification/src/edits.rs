//! The edits the interface makes to the configuration: opening a tunnel for editing,
//! saving a tunnel or a group, and deleting them.

use vstd::prelude::*;
use crate::config::{AppConfig, Endpoint, ForwardSpec, Group, Tunnel, TunnelStatus, clone_opt_string};
use crate::ssh_config::opt_view;
use crate::diagnostics::{find_jump_reference, find_tunnel, first_with_id, jump_reference};
use crate::i18n::Language;
use crate::text::{blank, is_blank, owned};

verus! {

/// A tunnel is running or on its way to running.
pub open spec fn active_status(status: TunnelStatus) -> bool {
    status == TunnelStatus::Running || status == TunnelStatus::Connecting || status
        == TunnelStatus::Reconnecting
}

/// Whether a tunnel with this status counts as active (running, connecting or
/// reconnecting).
pub fn is_active(status: TunnelStatus) -> (r: bool)
    ensures
        r == active_status(status),
{
    match status {
        TunnelStatus::Running | TunnelStatus::Connecting | TunnelStatus::Reconnecting => true,
        _ => false,
    }
}

/// A tunnel as the edit form shows it: a jump host given by reference to a saved
/// tunnel becomes manual jump fields copied from that tunnel.
pub open spec fn editable(t: Tunnel, all: Seq<Tunnel>) -> Tunnel {
    match jump_reference(t, all) {
        Some(j) => Tunnel {
            jump_host_id: None,
            jump_host: Some(j.ssh_host),
            jump_port: Some(j.ssh_port),
            jump_user: Some(j.ssh_user),
            jump_identity_file: j.ssh_identity_file,
            jump_password: j.ssh_password,
            ..t
        },
        None => t,
    }
}

/// The tunnel to open in the edit form.
pub fn editable_tunnel(tunnel: &Tunnel, all_tunnels: &Vec<Tunnel>) -> (r: Tunnel)
    ensures
        r == editable(*tunnel, all_tunnels@),
{
    let mut t = tunnel.clone();
    match find_jump_reference(tunnel, all_tunnels) {
        Some(i) => {
            let j = &all_tunnels[i];
            t.jump_host_id = None;
            t.jump_host = Some(j.ssh_host.clone());
            t.jump_port = Some(j.ssh_port);
            t.jump_user = Some(j.ssh_user.clone());
            t.jump_identity_file = clone_opt_string(&j.ssh_identity_file);
            t.jump_password = clone_opt_string(&j.ssh_password);
            t
        },
        None => t,
    }
}

/// The tunnels after saving `t`: it replaces the first tunnel with its id, or is
/// appended when there is none.
pub open spec fn upserted(ts: Seq<Tunnel>, t: Tunnel) -> Seq<Tunnel> {
    match first_with_id(ts, t.id@) {
        Some(i) => ts.update(i, t),
        None => ts.push(t),
    }
}

/// The saved tunnel with this id: the first one.
pub open spec fn lookup_tunnel(ts: Seq<Tunnel>, id: Seq<char>) -> Option<Tunnel> {
    match first_with_id(ts, id) {
        Some(i) => Some(ts[i]),
        None => None,
    }
}

/// Saves a tunnel into the configuration (replacing the one with its id).
pub fn upsert_tunnel(config: &mut AppConfig, tunnel: Tunnel)
    ensures
        final(config).tunnels@ == upserted(old(config).tunnels@, tunnel),
        final(config).version == old(config).version,
        final(config).groups == old(config).groups,
        final(config).settings == old(config).settings,
{
    match find_tunnel(&config.tunnels, &tunnel.id) {
        Some(i) => {
            config.tunnels.set(i, tunnel);
        },
        None => {
            config.tunnels.push(tunnel);
        },
    }
}

/// The first index of a tunnel with this id, when a given index holds one.
proof fn lemma_first_exists(ts: Seq<Tunnel>, id: Seq<char>, k: int)
    requires
        0 <= k < ts.len(),
        ts[k].id@ == id,
    ensures
        first_with_id(ts, id) is Some,
        0 <= first_with_id(ts, id)->0 <= k,
        ts[first_with_id(ts, id)->0].id@ == id,
        forall|j: int| 0 <= j < first_with_id(ts, id)->0 ==> (#[trigger] ts[j]).id@ != id,
    decreases k,
{
    if exists|j: int| 0 <= j < k && (#[trigger] ts[j]).id@ == id {
        let j = choose|j: int| 0 <= j < k && (#[trigger] ts[j]).id@ == id;
        lemma_first_exists(ts, id, j);
    } else {
        assert(exists|i: int|
            0 <= i < ts.len() && (#[trigger] ts[i]).id@ == id && forall|j: int|
                0 <= j < i ==> (#[trigger] ts[j]).id@ != id);
        let f = first_with_id(ts, id)->0;
        if f < k {
            assert(ts[f].id@ == id);
        }
        if k < f {
            assert(ts[k].id@ != id);
        }
    }
}

/// What `first_with_id` finds: no tunnel has the id, or the returned index is the
/// first that has it.
proof fn lemma_first_cases(ts: Seq<Tunnel>, id: Seq<char>)
    ensures
        first_with_id(ts, id) is None ==> forall|j: int| 0 <= j < ts.len() ==> (#[trigger] ts[j]).id@ != id,
        first_with_id(ts, id) is Some ==> {
            let f = first_with_id(ts, id)->0;
            &&& 0 <= f < ts.len()
            &&& ts[f].id@ == id
            &&& forall|j: int| 0 <= j < f ==> (#[trigger] ts[j]).id@ != id
        },
{
    if exists|k: int| 0 <= k < ts.len() && (#[trigger] ts[k]).id@ == id {
        let k = choose|k: int| 0 <= k < ts.len() && (#[trigger] ts[k]).id@ == id;
        lemma_first_exists(ts, id, k);
    }
}

/// The first tunnel with an id is the one at index `f` when `f` holds the id and no
/// earlier tunnel does.
proof fn lemma_first_is(ts: Seq<Tunnel>, id: Seq<char>, f: int)
    requires
        0 <= f < ts.len(),
        ts[f].id@ == id,
        forall|j: int| 0 <= j < f ==> (#[trigger] ts[j]).id@ != id,
    ensures
        first_with_id(ts, id) == Some(f),
{
    lemma_first_exists(ts, id, f);
    let g = first_with_id(ts, id)->0;
    if g < f {
        assert(ts[g].id@ == id);
    }
}

/// A saved tunnel is what a lookup by its id finds afterwards, and a lookup by any
/// other id finds what it found before.
pub proof fn lemma_saved_tunnel_is_found(ts: Seq<Tunnel>, t: Tunnel, other: Seq<char>)
    requires
        other != t.id@,
    ensures
        lookup_tunnel(upserted(ts, t), t.id@) == Some(t),
        lookup_tunnel(upserted(ts, t), other) == lookup_tunnel(ts, other),
{
    let u = upserted(ts, t);
    lemma_first_cases(ts, t.id@);
    lemma_first_cases(ts, other);
    match first_with_id(ts, t.id@) {
        Some(i) => {
            assert(u[i] == t);
            assert forall|j: int| 0 <= j < i implies (#[trigger] u[j]).id@ != t.id@ by {
                assert(u[j] == ts[j]);
            }
            lemma_first_is(u, t.id@, i);
            match first_with_id(ts, other) {
                Some(k) => {
                    assert(k != i);
                    assert(u[k] == ts[k]);
                    assert forall|j: int| 0 <= j < k implies (#[trigger] u[j]).id@ != other by {
                        if j != i {
                            assert(u[j] == ts[j]);
                        }
                    }
                    lemma_first_is(u, other, k);
                },
                None => {
                    lemma_first_cases(u, other);
                    if first_with_id(u, other) is Some {
                        let f = first_with_id(u, other)->0;
                        if f != i {
                            assert(u[f] == ts[f]);
                        }
                    }
                },
            }
        },
        None => {
            assert(u.len() == ts.len() + 1);
            assert(u[ts.len() as int] == t);
            assert forall|j: int| 0 <= j < ts.len() implies (#[trigger] u[j]).id@ != t.id@ by {
                assert(u[j] == ts[j]);
            }
            lemma_first_is(u, t.id@, ts.len() as int);
            match first_with_id(ts, other) {
                Some(k) => {
                    assert(u[k] == ts[k]);
                    assert forall|j: int| 0 <= j < k implies (#[trigger] u[j]).id@ != other by {
                        assert(u[j] == ts[j]);
                    }
                    lemma_first_is(u, other, k);
                },
                None => {
                    lemma_first_cases(u, other);
                    if first_with_id(u, other) is Some {
                        let f = first_with_id(u, other)->0;
                        if f < ts.len() {
                            assert(u[f] == ts[f]);
                        }
                    }
                },
            }
        },
    }
}

/// The tunnels that remain after deleting those with an id.
pub open spec fn without_tunnel(ts: Seq<Tunnel>, id: Seq<char>) -> Seq<Tunnel> {
    ts.filter(|t: Tunnel| t.id@ != id)
}

/// Deletes the tunnels with this id from the configuration.
pub fn remove_tunnel(config: &mut AppConfig, id: &String)
    ensures
        final(config).tunnels@ == without_tunnel(old(config).tunnels@, id@),
        final(config).version == old(config).version,
        final(config).groups == old(config).groups,
        final(config).settings == old(config).settings,
{
    let ghost before = config.tunnels@;
    let ghost keep = |t: Tunnel| t.id@ != id@;
    let mut kept: Vec<Tunnel> = Vec::new();
    let mut i: usize = 0;
    assert(before.subrange(0, 0) =~= Seq::<Tunnel>::empty());
    while i < config.tunnels.len()
        invariant
            i <= before.len(),
            config.tunnels@ == before,
            keep == (|t: Tunnel| t.id@ != id@),
            kept@ == before.subrange(0, i as int).filter(keep),
        decreases before.len() - i,
    {
        let t = &config.tunnels[i];
        assert(before.subrange(0, i + 1) =~= before.subrange(0, i as int).push(*t));
        proof {
            before.subrange(0, i as int).lemma_filter_push(*t, keep);
        }
        if !(t.id == *id) {
            kept.push(t.clone());
        }
        i += 1;
    }
    assert(before.subrange(0, before.len() as int) =~= before);
    config.tunnels = kept;
}

/// After a deletion no tunnel has the deleted id.
pub proof fn lemma_deleted_tunnel_is_gone(ts: Seq<Tunnel>, id: Seq<char>)
    ensures
        forall|i: int| 0 <= i < without_tunnel(ts, id).len() ==> (#[trigger] without_tunnel(ts, id)[i]).id@ != id,
        lookup_tunnel(without_tunnel(ts, id), id) is None,
{
    let w = without_tunnel(ts, id);
    assert forall|i: int| 0 <= i < w.len() implies (#[trigger] w[i]).id@ != id by {
        ts.filter_lemma(|t: Tunnel| t.id@ != id);
    }
    lemma_first_cases(w, id);
}

/// The group a form describes, or why it is refused: a blank name is refused; the
/// description is kept unless blank; the id is the edited group's, else `new_id`.
pub open spec fn group_from_form_spec(
    r: Result<Group, String>,
    editing_id: Option<String>,
    name: Seq<char>,
    description: Seq<char>,
    language: Language,
    new_id: Seq<char>,
) -> bool {
    if blank(name) {
        r is Err && r->Err_0@ == (if language == Language::Zh {
            "分组名称不能为空"@
        } else {
            "Group name cannot be empty"@
        })
    } else {
        &&& r is Ok
        &&& r->Ok_0.id@ == match editing_id {
            Some(e) => e@,
            None => new_id,
        }
        &&& r->Ok_0.name@ == name
        &&& blank(description) ==> r->Ok_0.description is None
        &&& !blank(description) ==> r->Ok_0.description is Some && r->Ok_0.description->0@ == description
    }
}

/// Builds a group from the group form, with `new_id` as the id of a new group.
pub fn group_with_id(
    editing_id: &Option<String>,
    name: &str,
    description: &str,
    language: Language,
    new_id: &str,
) -> (r: Result<Group, String>)
    ensures
        group_from_form_spec(r, *editing_id, name@, description@, language, new_id@),
{
    if is_blank(name) {
        return Err(owned(language.pick("分组名称不能为空", "Group name cannot be empty")));
    }
    let id = match editing_id {
        Some(e) => e.clone(),
        None => owned(new_id),
    };
    let description = if is_blank(description) {
        None
    } else {
        Some(owned(description))
    };
    Ok(Group { id, name: owned(name), description })
}

/// Builds a group from the group form; a new group gets a fresh random id.
pub fn group_from_form(editing_id: &Option<String>, name: &str, description: &str, language: Language) -> (r: Result<
    Group,
    String,
>)
    ensures
        exists|new_id: Seq<char>|
            crate::event_log::uuid_v4_text(new_id) && group_from_form_spec(
                r,
                *editing_id,
                name@,
                description@,
                language,
                new_id,
            ),
{
    let new_id = crate::event_log::new_uuid().1;
    group_with_id(editing_id, name, description, language, new_id.as_str())
}

/// The first group with an id.
pub open spec fn first_group(gs: Seq<Group>, id: Seq<char>) -> Option<int> {
    if exists|i: int| 0 <= i < gs.len() && (#[trigger] gs[i]).id@ == id {
        let i = choose|i: int|
            0 <= i < gs.len() && (#[trigger] gs[i]).id@ == id && forall|j: int|
                0 <= j < i ==> (#[trigger] gs[j]).id@ != id;
        Some(i)
    } else {
        None
    }
}

/// The groups after saving `g`: it replaces the first group with its id, or is
/// appended.
pub open spec fn upserted_group(gs: Seq<Group>, g: Group) -> Seq<Group> {
    match first_group(gs, g.id@) {
        Some(i) => gs.update(i, g),
        None => gs.push(g),
    }
}

fn find_group(groups: &Vec<Group>, id: &String) -> (r: Option<usize>)
    ensures
        match r {
            Some(i) => i < groups@.len() && first_group(groups@, id@) == Some(i as int),
            None => first_group(groups@, id@) is None,
        },
{
    let mut i: usize = 0;
    while i < groups.len()
        invariant
            i <= groups@.len(),
            forall|j: int| 0 <= j < i ==> (#[trigger] groups@[j]).id@ != id@,
        decreases groups@.len() - i,
    {
        if groups[i].id == *id {
            let ghost k = i as int;
            let ghost f = choose|f: int|
                0 <= f < groups@.len() && (#[trigger] groups@[f]).id@ == id@ && forall|j: int|
                    0 <= j < f ==> (#[trigger] groups@[j]).id@ != id@;
            assert(exists|f: int|
                0 <= f < groups@.len() && (#[trigger] groups@[f]).id@ == id@ && forall|j: int|
                    0 <= j < f ==> (#[trigger] groups@[j]).id@ != id@) by {
                assert(groups@[k].id@ == id@);
            }
            proof {
                if f < k {
                    assert(groups@[f].id@ == id@);
                }
                if k < f {
                    assert(groups@[k].id@ != id@);
                }
            }
            return Some(i);
        }
        i += 1;
    }
    None
}

/// Saves a group into the configuration (replacing the one with its id).
pub fn upsert_group(config: &mut AppConfig, group: Group)
    ensures
        final(config).groups@ == upserted_group(old(config).groups@, group),
        final(config).version == old(config).version,
        final(config).tunnels == old(config).tunnels,
        final(config).settings == old(config).settings,
{
    match find_group(&config.groups, &group.id) {
        Some(i) => {
            config.groups.set(i, group);
        },
        None => {
            config.groups.push(group);
        },
    }
}

/// The saved group with this id: the first one.
pub open spec fn lookup_group(gs: Seq<Group>, id: Seq<char>) -> Option<Group> {
    match first_group(gs, id) {
        Some(i) => Some(gs[i]),
        None => None,
    }
}

proof fn lemma_first_group_exists(gs: Seq<Group>, id: Seq<char>, k: int)
    requires
        0 <= k < gs.len(),
        gs[k].id@ == id,
    ensures
        first_group(gs, id) is Some,
        0 <= first_group(gs, id)->0 <= k,
        gs[first_group(gs, id)->0].id@ == id,
        forall|j: int| 0 <= j < first_group(gs, id)->0 ==> (#[trigger] gs[j]).id@ != id,
    decreases k,
{
    if exists|j: int| 0 <= j < k && (#[trigger] gs[j]).id@ == id {
        let j = choose|j: int| 0 <= j < k && (#[trigger] gs[j]).id@ == id;
        lemma_first_group_exists(gs, id, j);
    } else {
        assert(exists|i: int|
            0 <= i < gs.len() && (#[trigger] gs[i]).id@ == id && forall|j: int|
                0 <= j < i ==> (#[trigger] gs[j]).id@ != id);
        let f = first_group(gs, id)->0;
        if f < k {
            assert(gs[f].id@ == id);
        }
        if k < f {
            assert(gs[k].id@ != id);
        }
    }
}

proof fn lemma_first_group_cases(gs: Seq<Group>, id: Seq<char>)
    ensures
        first_group(gs, id) is None ==> forall|j: int| 0 <= j < gs.len() ==> (#[trigger] gs[j]).id@ != id,
        first_group(gs, id) is Some ==> {
            let f = first_group(gs, id)->0;
            &&& 0 <= f < gs.len()
            &&& gs[f].id@ == id
            &&& forall|j: int| 0 <= j < f ==> (#[trigger] gs[j]).id@ != id
        },
{
    if exists|k: int| 0 <= k < gs.len() && (#[trigger] gs[k]).id@ == id {
        let k = choose|k: int| 0 <= k < gs.len() && (#[trigger] gs[k]).id@ == id;
        lemma_first_group_exists(gs, id, k);
    }
}

proof fn lemma_first_group_is(gs: Seq<Group>, id: Seq<char>, f: int)
    requires
        0 <= f < gs.len(),
        gs[f].id@ == id,
        forall|j: int| 0 <= j < f ==> (#[trigger] gs[j]).id@ != id,
    ensures
        first_group(gs, id) == Some(f),
{
    lemma_first_group_exists(gs, id, f);
    let g = first_group(gs, id)->0;
    if g < f {
        assert(gs[g].id@ == id);
    }
}

/// A saved group is what a lookup by its id finds afterwards, and a lookup by any
/// other id finds what it found before.
pub proof fn lemma_saved_group_is_found(gs: Seq<Group>, g: Group, other: Seq<char>)
    requires
        other != g.id@,
    ensures
        lookup_group(upserted_group(gs, g), g.id@) == Some(g),
        lookup_group(upserted_group(gs, g), other) == lookup_group(gs, other),
{
    let u = upserted_group(gs, g);
    lemma_first_group_cases(gs, g.id@);
    lemma_first_group_cases(gs, other);
    let at = match first_group(gs, g.id@) {
        Some(i) => i,
        None => gs.len() as int,
    };
    assert(u[at] == g);
    assert forall|j: int| 0 <= j < u.len() && j != at implies #[trigger] u[j] == gs[j] by {}
    assert forall|j: int| 0 <= j < at implies (#[trigger] u[j]).id@ != g.id@ by {
        assert(u[j] == gs[j]);
    }
    lemma_first_group_is(u, g.id@, at);
    match first_group(gs, other) {
        Some(k) => {
            assert(u[k] == gs[k]);
            assert forall|j: int| 0 <= j < k implies (#[trigger] u[j]).id@ != other by {
                if j != at {
                    assert(u[j] == gs[j]);
                }
            }
            lemma_first_group_is(u, other, k);
        },
        None => {
            lemma_first_group_cases(u, other);
            if first_group(u, other) is Some {
                let f = first_group(u, other)->0;
                if f != at {
                    assert(u[f] == gs[f]);
                }
            }
        },
    }
}

/// A tunnel with its group cleared when it was in group `id`.
pub open spec fn ungrouped(t: Tunnel, id: Seq<char>) -> Tunnel {
    if t.group_id is Some && t.group_id->0@ == id {
        Tunnel { group_id: None, ..t }
    } else {
        t
    }
}

/// Deletes a group: the groups with its id go, and its tunnels become ungrouped.
pub fn remove_group(config: &mut AppConfig, id: &String)
    ensures
        final(config).groups@ == old(config).groups@.filter(|g: Group| g.id@ != id@),
        final(config).tunnels@ == old(config).tunnels@.map_values(|t: Tunnel| ungrouped(t, id@)),
        final(config).version == old(config).version,
        final(config).settings == old(config).settings,
{
    let ghost gs = config.groups@;
    let ghost keep = |g: Group| g.id@ != id@;
    let mut kept: Vec<Group> = Vec::new();
    let mut i: usize = 0;
    assert(gs.subrange(0, 0) =~= Seq::<Group>::empty());
    while i < config.groups.len()
        invariant
            i <= gs.len(),
            config.groups@ == gs,
            keep == (|g: Group| g.id@ != id@),
            kept@ == gs.subrange(0, i as int).filter(keep),
        decreases gs.len() - i,
    {
        let g = &config.groups[i];
        assert(gs.subrange(0, i + 1) =~= gs.subrange(0, i as int).push(*g));
        proof {
            gs.subrange(0, i as int).lemma_filter_push(*g, keep);
        }
        if !(g.id == *id) {
            kept.push(g.clone());
        }
        i += 1;
    }
    assert(gs.subrange(0, gs.len() as int) =~= gs);
    config.groups = kept;

    let ghost ts = config.tunnels@;
    let mut tunnels: Vec<Tunnel> = Vec::new();
    let mut k: usize = 0;
    while k < config.tunnels.len()
        invariant
            k <= ts.len(),
            config.tunnels@ == ts,
            tunnels@.len() == k,
            forall|j: int| 0 <= j < k ==> #[trigger] tunnels@[j] == ungrouped(ts[j], id@),
        decreases ts.len() - k,
    {
        let mut t = config.tunnels[k].clone();
        let in_group = match &t.group_id {
            Some(g) => *g == *id,
            None => false,
        };
        if in_group {
            t.group_id = None;
        }
        tunnels.push(t);
        k += 1;
    }
    assert(tunnels@ =~= ts.map_values(|t: Tunnel| ungrouped(t, id@)));
    config.tunnels = tunnels;
}

/// After a group is deleted, no group has its id and no tunnel is left in it.
pub proof fn lemma_deleted_group_is_gone(c: AppConfig, id: Seq<char>, groups: Seq<Group>, tunnels: Seq<Tunnel>)
    requires
        groups == c.groups@.filter(|g: Group| g.id@ != id),
        tunnels == c.tunnels@.map_values(|t: Tunnel| ungrouped(t, id)),
    ensures
        forall|i: int| 0 <= i < groups.len() ==> (#[trigger] groups[i]).id@ != id,
        forall|i: int|
            0 <= i < tunnels.len() ==> !((#[trigger] tunnels[i]).group_id is Some && tunnels[i].group_id->0@
                == id),
{
    assert forall|i: int| 0 <= i < groups.len() implies (#[trigger] groups[i]).id@ != id by {
        c.groups@.filter_lemma(|g: Group| g.id@ != id);
    }
}

/// Two optional texts are the same.
pub open spec fn same_text(a: Option<String>, b: Option<String>) -> bool {
    opt_view(a) == opt_view(b)
}

/// Two endpoints are the same.
pub open spec fn same_endpoint(a: Endpoint, b: Endpoint) -> bool {
    a.host@ == b.host@ && a.port == b.port
}

/// Two forwarding specifications are the same.
pub open spec fn same_forward(a: ForwardSpec, b: ForwardSpec) -> bool {
    match (a, b) {
        (ForwardSpec::Local { listen: l1, target: t1 }, ForwardSpec::Local { listen: l2, target: t2 }) =>
            same_endpoint(l1, l2) && same_endpoint(t1, t2),
        (ForwardSpec::Remote { listen: l1, target: t1 }, ForwardSpec::Remote { listen: l2, target: t2 }) =>
            same_endpoint(l1, l2) && same_endpoint(t1, t2),
        (ForwardSpec::Socks5 { listen: l1 }, ForwardSpec::Socks5 { listen: l2 }) => same_endpoint(l1, l2),
        _ => false,
    }
}

/// Two tunnels agree on every field.
pub open spec fn same_tunnel(a: Tunnel, b: Tunnel) -> bool {
    &&& a.id@ == b.id@
    &&& a.name@ == b.name@
    &&& same_text(a.description, b.description)
    &&& same_text(a.group_id, b.group_id)
    &&& a.ssh_host@ == b.ssh_host@
    &&& a.ssh_port == b.ssh_port
    &&& a.ssh_user@ == b.ssh_user@
    &&& same_text(a.ssh_identity_file, b.ssh_identity_file)
    &&& same_text(a.ssh_password, b.ssh_password)
    &&& a.jump_host_enabled == b.jump_host_enabled
    &&& same_text(a.jump_host_id, b.jump_host_id)
    &&& same_text(a.jump_host, b.jump_host)
    &&& a.jump_port == b.jump_port
    &&& same_text(a.jump_user, b.jump_user)
    &&& same_text(a.jump_identity_file, b.jump_identity_file)
    &&& same_text(a.jump_password, b.jump_password)
    &&& same_forward(a.forward, b.forward)
    &&& a.start_with_app == b.start_with_app
    &&& a.auto_reconnect == b.auto_reconnect
    &&& a.retry_count == b.retry_count
    &&& a.retry_interval == b.retry_interval
}

fn texts_equal(a: &Option<String>, b: &Option<String>) -> (r: bool)
    ensures
        r == same_text(*a, *b),
{
    match (a, b) {
        (Some(x), Some(y)) => *x == *y,
        (None, None) => true,
        _ => false,
    }
}

fn endpoints_equal(a: &Endpoint, b: &Endpoint) -> (r: bool)
    ensures
        r == same_endpoint(*a, *b),
{
    a.host == b.host && a.port == b.port
}

fn forwards_equal(a: &ForwardSpec, b: &ForwardSpec) -> (r: bool)
    ensures
        r == same_forward(*a, *b),
{
    match (a, b) {
        (ForwardSpec::Local { listen: l1, target: t1 }, ForwardSpec::Local { listen: l2, target: t2 }) =>
            endpoints_equal(l1, l2) && endpoints_equal(t1, t2),
        (ForwardSpec::Remote { listen: l1, target: t1 }, ForwardSpec::Remote { listen: l2, target: t2 }) =>
            endpoints_equal(l1, l2) && endpoints_equal(t1, t2),
        (ForwardSpec::Socks5 { listen: l1 }, ForwardSpec::Socks5 { listen: l2 }) => endpoints_equal(l1, l2),
        _ => false,
    }
}

/// Whether two tunnels agree on every field.
pub fn tunnels_equal(a: &Tunnel, b: &Tunnel) -> (r: bool)
    ensures
        r == same_tunnel(*a, *b),
{
    a.id == b.id && a.name == b.name && texts_equal(&a.description, &b.description) && texts_equal(
        &a.group_id,
        &b.group_id,
    ) && a.ssh_host == b.ssh_host && a.ssh_port == b.ssh_port && a.ssh_user == b.ssh_user && texts_equal(
        &a.ssh_identity_file,
        &b.ssh_identity_file,
    ) && texts_equal(&a.ssh_password, &b.ssh_password) && a.jump_host_enabled == b.jump_host_enabled
        && texts_equal(&a.jump_host_id, &b.jump_host_id) && texts_equal(&a.jump_host, &b.jump_host)
        && a.jump_port == b.jump_port && texts_equal(&a.jump_user, &b.jump_user) && texts_equal(
        &a.jump_identity_file,
        &b.jump_identity_file,
    ) && texts_equal(&a.jump_password, &b.jump_password) && forwards_equal(&a.forward, &b.forward)
        && a.start_with_app == b.start_with_app && a.auto_reconnect == b.auto_reconnect && a.retry_count
        == b.retry_count && a.retry_interval == b.retry_interval
}

/// What saving a checked tunnel from the edit form does.
#[derive(Debug, Clone, Copy, PartialEq, Eq, Structural)]
pub enum SaveStep {
    /// Nothing changed: the form closes and nothing is saved.
    Close,
    /// The tunnel is active and its connection settings changed: ask before saving
    /// and reconnecting.
    Confirm,
    /// Save it.
    Persist,
}

/// The step after a form was checked: an unchanged tunnel closes the form; an active
/// tunnel whose connection settings changed asks first; anything else is saved.
/// `existing` is the saved tunnel with the same id, and `settings_differ` whether the
/// two differ in their connection settings.
pub fn save_step(existing: Option<&Tunnel>, tunnel: &Tunnel, active: bool, settings_differ: bool) -> (r: SaveStep)
    ensures
        r == match existing {
            Some(e) => if same_tunnel(*e, *tunnel) {
                SaveStep::Close
            } else if active && settings_differ {
                SaveStep::Confirm
            } else {
                SaveStep::Persist
            },
            None => SaveStep::Persist,
        },
{
    match existing {
        Some(e) => if tunnels_equal(e, tunnel) {
            SaveStep::Close
        } else if active && settings_differ {
            SaveStep::Confirm
        } else {
            SaveStep::Persist
        },
        None => SaveStep::Persist,
    }
}


/// Two optional texts hold the same text, or are both absent.
proof fn lemma_same_text_fields(a: Option<String>, b: Option<String>)
    ensures
        same_text(a, b) <==> ((a is Some <==> b is Some) && (a is Some ==> a->0@ == b->0@)),
{
}

/// The form closes without saving only for a tunnel that matches the saved one in
/// every field: `same_tunnel` (what `tunnels_equal` and `save_step` decide by) holds
/// exactly when the two tunnels have the same texts, numbers and switches, and forward
/// the same way from the same listening address and port to the same target address
/// and port. A changed port, host or kind of forward is a change.
pub proof fn lemma_unchanged_means_every_field(a: Tunnel, b: Tunnel)
    ensures
        same_tunnel(a, b) <==> {
            &&& a.id@ == b.id@ && a.name@ == b.name@
            &&& (a.description is Some <==> b.description is Some) && (a.description is Some
                ==> a.description->0@ == b.description->0@)
            &&& (a.group_id is Some <==> b.group_id is Some) && (a.group_id is Some ==> a.group_id->0@
                == b.group_id->0@)
            &&& a.ssh_host@ == b.ssh_host@ && a.ssh_port == b.ssh_port && a.ssh_user@ == b.ssh_user@
            &&& (a.ssh_identity_file is Some <==> b.ssh_identity_file is Some) && (a.ssh_identity_file is Some
                ==> a.ssh_identity_file->0@ == b.ssh_identity_file->0@)
            &&& (a.ssh_password is Some <==> b.ssh_password is Some) && (a.ssh_password is Some
                ==> a.ssh_password->0@ == b.ssh_password->0@)
            &&& a.jump_host_enabled == b.jump_host_enabled
            &&& (a.jump_host_id is Some <==> b.jump_host_id is Some) && (a.jump_host_id is Some
                ==> a.jump_host_id->0@ == b.jump_host_id->0@)
            &&& (a.jump_host is Some <==> b.jump_host is Some) && (a.jump_host is Some ==> a.jump_host->0@
                == b.jump_host->0@)
            &&& a.jump_port == b.jump_port
            &&& (a.jump_user is Some <==> b.jump_user is Some) && (a.jump_user is Some ==> a.jump_user->0@
                == b.jump_user->0@)
            &&& (a.jump_identity_file is Some <==> b.jump_identity_file is Some) && (a.jump_identity_file is Some
                ==> a.jump_identity_file->0@ == b.jump_identity_file->0@)
            &&& (a.jump_password is Some <==> b.jump_password is Some) && (a.jump_password is Some
                ==> a.jump_password->0@ == b.jump_password->0@)
            &&& match (a.forward, b.forward) {
                (ForwardSpec::Local { listen: l1, target: t1 }, ForwardSpec::Local { listen: l2, target: t2 }) =>
                    l1.host@ == l2.host@ && l1.port == l2.port && t1.host@ == t2.host@ && t1.port == t2.port,
                (ForwardSpec::Remote { listen: l1, target: t1 }, ForwardSpec::Remote { listen: l2, target: t2 }) =>
                    l1.host@ == l2.host@ && l1.port == l2.port && t1.host@ == t2.host@ && t1.port == t2.port,
                (ForwardSpec::Socks5 { listen: l1 }, ForwardSpec::Socks5 { listen: l2 }) => l1.host@ == l2.host@
                    && l1.port == l2.port,
                _ => false,
            }
            &&& a.start_with_app == b.start_with_app && a.auto_reconnect == b.auto_reconnect
            &&& a.retry_count == b.retry_count && a.retry_interval == b.retry_interval
        },
{
    lemma_same_text_fields(a.description, b.description);
    lemma_same_text_fields(a.group_id, b.group_id);
    lemma_same_text_fields(a.ssh_identity_file, b.ssh_identity_file);
    lemma_same_text_fields(a.ssh_password, b.ssh_password);
    lemma_same_text_fields(a.jump_host_id, b.jump_host_id);
    lemma_same_text_fields(a.jump_host, b.jump_host);
    lemma_same_text_fields(a.jump_user, b.jump_user);
    lemma_same_text_fields(a.jump_identity_file, b.jump_identity_file);
    lemma_same_text_fields(a.jump_password, b.jump_password);
}

} // verus!
