//! The tunnel editor: the texts of its fields, the check that every required field is
//! filled in, and the tunnel that the fields describe.

use vstd::prelude::*;
use crate::config::{Tunnel, Endpoint, ForwardSpec, tunnel_error, validate_tunnel, clone_opt_string};
use crate::host_key_prompt::{parse_u16, parse_port, digits_value, is_digit, lemma_digits_value_grows, lemma_decimal_digits, lemma_parse_decimal};
use crate::i18n::Language;
use crate::ssh_config::{opt_view, SshHostConfig};
use crate::text::{blank, trim, trim_start, trim_end, is_ws, is_blank, chars_of, trim_bounds, owned, push_str, decimal, decimal_string};
use crate::diagnostics::or_empty;

verus! {

/// What kind of forward the editor describes.
#[derive(Debug, Clone, Copy, PartialEq, Eq, Structural)]
pub enum ForwardKind {
    Local,
    Remote,
    Socks5,
}

/// The texts and choices of the tunnel editor.
#[derive(Debug)]
pub struct TunnelFormValues {
    pub editing_id: Option<String>,
    pub kind: ForwardKind,
    /// Start the tunnel once it is saved.
    pub start_after_save: bool,
    pub auto_reconnect: bool,
    pub start_with_app: bool,
    pub jump_enabled: bool,
    pub jump_host_id: Option<String>,
    pub group_id: Option<String>,
    pub name: String,
    pub description: String,
    pub ssh_host: String,
    pub ssh_port: String,
    pub ssh_user: String,
    pub identity_file: String,
    pub ssh_password: String,
    pub jump_host: String,
    pub jump_port: String,
    pub jump_user: String,
    pub jump_identity_file: String,
    pub jump_password: String,
    pub listen_host: String,
    pub listen_port: String,
    pub target_host: String,
    pub target_port: String,
    pub retry_count: String,
    pub retry_interval: String,
}

/// Why the editor's fields do not make a tunnel: the message to show, and whether
/// the advanced section is to be opened because one of its fields is wrong.
#[derive(Debug)]
pub struct FormRejection {
    pub message: String,
    pub open_advanced: bool,
}

/// One of two texts, by language.
pub open spec fn tr(language: Language, zh: Seq<char>, en: Seq<char>) -> Seq<char> {
    if language == Language::Zh {
        zh
    } else {
        en
    }
}

/// `u32::from_str`: an optional `+`, then at least one digit and nothing else, at most
/// `u32::MAX`.
pub open spec fn parse_u32(s: Seq<char>) -> Option<u32> {
    count_digits(
        if s.len() > 0 && s[0] == '+' {
            s.drop_first()
        } else {
            s
        },
    )
}

/// A run of decimal digits read as a `u32`: at least one digit, nothing else, at
/// most `u32::MAX`.
pub open spec fn count_digits(d: Seq<char>) -> Option<u32> {
    if d.len() == 0 || exists|i: int| 0 <= i < d.len() && !is_digit(#[trigger] d[i]) {
        None
    } else if digits_value(d) > u32::MAX {
        None
    } else {
        Some(digits_value(d) as u32)
    }
}

/// A port field: its trimmed text read as a port from 1 to 65535.
pub open spec fn form_port(text: Seq<char>) -> Option<u16> {
    match parse_u16(trim(text)) {
        Some(p) => if p > 0 {
            Some(p)
        } else {
            None
        },
        None => None,
    }
}

/// A count field: its trimmed text read as a `u32`.
pub open spec fn form_count(text: Seq<char>) -> Option<u32> {
    parse_u32(trim(text))
}

/// A jump host is entered by hand (rather than picked from the saved tunnels).
pub open spec fn manual_jump(f: TunnelFormValues) -> bool {
    f.jump_enabled && f.jump_host_id is None
}

/// A field of the advanced section does not hold a valid number.
pub open spec fn advanced_error(f: TunnelFormValues) -> bool {
    ||| form_count(f.retry_count@) is None
    ||| form_count(f.retry_interval@) is None
    ||| (manual_jump(f) && form_port(f.jump_port@) is None)
}

/// The labels of the listen address and port, by forward kind.
pub open spec fn listen_labels(kind: ForwardKind, l: Language) -> (Seq<char>, Seq<char>) {
    match kind {
        ForwardKind::Local => (tr(l, "本机监听地址"@, "Local listen address"@), tr(l, "本机端口"@, "Local port"@)),
        ForwardKind::Remote => (tr(l, "远端监听地址"@, "Remote listen address"@), tr(l, "远端端口"@, "Remote port"@)),
        ForwardKind::Socks5 => (tr(l, "SOCKS5 监听地址"@, "SOCKS5 listen address"@), tr(l, "SOCKS5 端口"@, "SOCKS5 port"@)),
    }
}

/// The labels of the target address and port, by forward kind.
pub open spec fn target_labels(kind: ForwardKind, l: Language) -> (Seq<char>, Seq<char>) {
    match kind {
        ForwardKind::Remote => (tr(l, "本机目标地址"@, "Local target address"@), tr(l, "本机目标端口"@, "Local target port"@)),
        _ => (tr(l, "远端目标地址"@, "Remote target address"@), tr(l, "远端目标端口"@, "Remote target port"@)),
    }
}

/// The label of a field when its text is blank.
pub open spec fn if_blank(text: Seq<char>, label: Seq<char>) -> Seq<Seq<char>> {
    if blank(text) {
        seq![label]
    } else {
        Seq::empty()
    }
}

/// The labels of the required fields left blank, in the order of the editor.
pub open spec fn missing_labels(f: TunnelFormValues, l: Language) -> Seq<Seq<char>> {
    let (lh, lp) = listen_labels(f.kind, l);
    let (th, tp) = target_labels(f.kind, l);
    if_blank(f.name@, tr(l, "名称"@, "Name"@)) + if_blank(f.ssh_host@, tr(l, "SSH 主机"@, "SSH host"@))
        + if_blank(f.ssh_port@, tr(l, "SSH 端口"@, "SSH port"@)) + if_blank(f.ssh_user@, tr(l, "SSH 用户"@, "SSH user"@))
        + if_blank(f.listen_host@, lh) + if_blank(f.listen_port@, lp) + (if f.kind != ForwardKind::Socks5 {
        if_blank(f.target_host@, th) + if_blank(f.target_port@, tp)
    } else {
        Seq::empty()
    }) + if_blank(f.retry_count@, tr(l, "重试次数"@, "Retry count"@)) + if_blank(
        f.retry_interval@,
        tr(l, "重试间隔"@, "Retry interval"@),
    ) + (if manual_jump(f) {
        if_blank(f.jump_host@, tr(l, "跳板机主机"@, "Jump host"@)) + if_blank(
            f.jump_port@,
            tr(l, "跳板机端口"@, "Jump host port"@),
        ) + if_blank(f.jump_user@, tr(l, "跳板机用户"@, "Jump host user"@))
    } else {
        Seq::empty()
    })
}

/// Texts joined with a separator.
pub open spec fn join_text(parts: Seq<Seq<char>>, sep: Seq<char>) -> Seq<char>
    decreases parts.len(),
{
    if parts.len() == 0 {
        Seq::empty()
    } else if parts.len() == 1 {
        parts[0]
    } else {
        join_text(parts.drop_last(), sep) + sep + parts.last()
    }
}

/// The message that lists the blank required fields.
pub open spec fn missing_message(labels: Seq<Seq<char>>, l: Language) -> Seq<char> {
    if l == Language::Zh {
        "请填写以下必填项："@ + join_text(labels, "、"@)
    } else {
        "Complete the required fields: "@ + join_text(labels, ", "@)
    }
}

/// The message for a port field that is not a port.
pub open spec fn port_message(label: Seq<char>, l: Language) -> Seq<char> {
    if l == Language::Zh {
        label + "必须是 1–65535 的端口"@
    } else {
        label + " must be a port from 1 to 65535"@
    }
}

/// The message for a count field that is not a count.
pub open spec fn count_message(label: Seq<char>, l: Language) -> Seq<char> {
    if l == Language::Zh {
        label + "必须是非负整数"@
    } else {
        label + " must be a non-negative integer"@
    }
}

/// The first problem of the fields themselves, in the order they are checked: blank
/// required fields, then the numbers.
pub open spec fn field_error(f: TunnelFormValues, l: Language) -> Option<Seq<char>> {
    if missing_labels(f, l).len() > 0 {
        Some(missing_message(missing_labels(f, l), l))
    } else if form_port(f.listen_port@) is None {
        Some(port_message(tr(l, "监听端口"@, "Listen port"@), l))
    } else if f.kind != ForwardKind::Socks5 && form_port(f.target_port@) is None {
        Some(port_message(tr(l, "目标端口"@, "Target port"@), l))
    } else if manual_jump(f) && form_port(f.jump_port@) is None {
        Some(port_message(tr(l, "跳板机端口"@, "Jump host port"@), l))
    } else if form_port(f.ssh_port@) is None {
        Some(port_message(tr(l, "SSH 端口"@, "SSH port"@), l))
    } else if form_count(f.retry_count@) is None {
        Some(count_message(tr(l, "重试次数"@, "Retry count"@), l))
    } else if form_count(f.retry_interval@) is None {
        Some(count_message(tr(l, "重试间隔"@, "Retry interval"@), l))
    } else {
        None
    }
}

/// An optional text field: absent when blank.
pub open spec fn unless_blank(text: Seq<char>) -> Option<Seq<char>> {
    if blank(text) {
        None
    } else {
        Some(text)
    }
}

/// A secret field: absent when empty.
pub open spec fn unless_empty(text: Seq<char>) -> Option<Seq<char>> {
    if text.len() == 0 {
        None
    } else {
        Some(text)
    }
}

/// An endpoint holds the host text and the port of a field.
pub open spec fn endpoint_from(e: Endpoint, host: Seq<char>, port: Seq<char>) -> bool {
    e.host@ == host && form_port(port) == Some(e.port)
}

/// The tunnel the editor's fields describe, under the given id.
pub open spec fn describes(t: Tunnel, f: TunnelFormValues, id: Seq<char>) -> bool {
    let manual = manual_jump(f);
    &&& t.id@ == id
    &&& t.name@ == f.name@
    &&& opt_view(t.description) == unless_blank(f.description@)
    &&& opt_view(t.group_id) == opt_view(f.group_id)
    &&& t.ssh_host@ == f.ssh_host@
    &&& form_port(f.ssh_port@) == Some(t.ssh_port)
    &&& t.ssh_user@ == f.ssh_user@
    &&& opt_view(t.ssh_identity_file) == unless_blank(f.identity_file@)
    &&& opt_view(t.ssh_password) == unless_empty(f.ssh_password@)
    &&& t.jump_host_enabled == f.jump_enabled
    &&& opt_view(t.jump_host_id) == (if f.jump_enabled {
        opt_view(f.jump_host_id)
    } else {
        None
    })
    &&& opt_view(t.jump_host) == (if manual {
        Some(f.jump_host@)
    } else {
        None
    })
    &&& t.jump_port == (if manual {
        form_port(f.jump_port@)
    } else {
        None
    })
    &&& opt_view(t.jump_user) == (if manual {
        Some(f.jump_user@)
    } else {
        None
    })
    &&& opt_view(t.jump_identity_file) == (if manual {
        unless_blank(f.jump_identity_file@)
    } else {
        None
    })
    &&& opt_view(t.jump_password) == (if manual {
        unless_empty(f.jump_password@)
    } else {
        None
    })
    &&& match f.kind {
        ForwardKind::Local => t.forward matches ForwardSpec::Local { listen, target } && endpoint_from(
            listen,
            f.listen_host@,
            f.listen_port@,
        ) && endpoint_from(target, f.target_host@, f.target_port@),
        ForwardKind::Remote => t.forward matches ForwardSpec::Remote { listen, target } && endpoint_from(
            listen,
            f.listen_host@,
            f.listen_port@,
        ) && endpoint_from(target, f.target_host@, f.target_port@),
        ForwardKind::Socks5 => t.forward matches ForwardSpec::Socks5 { listen } && endpoint_from(
            listen,
            f.listen_host@,
            f.listen_port@,
        ),
    }
    &&& t.start_with_app == f.start_with_app
    &&& t.auto_reconnect == f.auto_reconnect
    &&& form_count(f.retry_count@) == Some(t.retry_count)
    &&& form_count(f.retry_interval@) == Some(t.retry_interval)
}

/// Reads `v[lo..hi]` as `u32::from_str` does.
pub(crate) fn parse_count(v: &Vec<char>, lo: usize, hi: usize) -> (r: Option<u32>)
    requires
        lo <= hi <= v@.len(),
    ensures
        r == parse_u32(v@.subrange(lo as int, hi as int)),
{
    let ghost s = v@.subrange(lo as int, hi as int);
    let start = if lo < hi && v[lo] == '+' {
        lo + 1
    } else {
        lo
    };
    let ghost d = v@.subrange(start as int, hi as int);
    proof {
        if lo < hi && v@[lo as int] == '+' {
            assert(d == s.drop_first());
        } else {
            assert(d == s);
        }
    }
    if start == hi {
        return None;
    }
    let mut value: u64 = 0;
    let mut i = start;
    while i < hi
        invariant
            start <= i <= hi <= v@.len(),
            d == v@.subrange(start as int, hi as int),
            forall|j: int| start <= j < i ==> is_digit(v@[j]),
            value == digits_value(v@.subrange(start as int, i as int)),
            value <= u32::MAX,
            parse_u32(v@.subrange(lo as int, hi as int)) == count_digits(d),
            d.len() > 0,
        decreases hi - i,
    {
        let c = v[i];
        if !('0' <= c && c <= '9') {
            proof {
                assert(!is_digit(d[i - start]));
            }
            return None;
        }
        let digit = ((c as u32) - ('0' as u32)) as u64;
        let next = value * 10 + digit;
        proof {
            let p = v@.subrange(start as int, i + 1);
            assert(p.drop_last() == v@.subrange(start as int, i as int));
            assert(p.last() == c);
        }
        if next > 4294967295 {
            proof {
                if forall|j: int| 0 <= j < d.len() ==> is_digit(#[trigger] d[j]) {
                    lemma_digits_value_grows(d, i - start + 1);
                    assert(d.subrange(0, i - start + 1) == v@.subrange(start as int, i + 1));
                }
            }
            return None;
        }
        value = next;
        i += 1;
    }
    proof {
        assert(v@.subrange(start as int, hi as int) == d);
        assert forall|j: int| 0 <= j < d.len() implies is_digit(#[trigger] d[j]) by {
            assert(d[j] == v@[start + j]);
        }
    }
    Some(value as u32)
}

/// The port a field holds.
fn port_field(text: &String) -> (r: Option<u16>)
    ensures
        r == form_port(text@),
{
    let v = chars_of(text.as_str());
    let (lo, hi) = trim_bounds(&v);
    match parse_port(&v, lo, hi) {
        Some(p) => if p > 0 {
            Some(p)
        } else {
            None
        },
        None => None,
    }
}

/// The count a field holds.
fn count_field(text: &String) -> (r: Option<u32>)
    ensures
        r == form_count(text@),
{
    let v = chars_of(text.as_str());
    let (lo, hi) = trim_bounds(&v);
    parse_count(&v, lo, hi)
}

fn require(missing: &mut Vec<&'static str>, text: &String, label: &'static str)
    ensures
        final(missing)@.map_values(|s: &'static str| s@) == old(missing)@.map_values(|s: &'static str| s@)
            + if_blank(text@, label@),
{
    if is_blank(text.as_str()) {
        missing.push(label);
    }
    assert(final(missing)@.map_values(|s: &'static str| s@) =~= old(missing)@.map_values(|s: &'static str| s@)
        + if_blank(text@, label@));
}

fn labels_of(kind: ForwardKind, l: Language, target: bool) -> (r: (&'static str, &'static str))
    ensures
        !target ==> (r.0@, r.1@) == listen_labels(kind, l),
        target ==> (r.0@, r.1@) == target_labels(kind, l),
{
    if !target {
        match kind {
            ForwardKind::Local => (l.pick("本机监听地址", "Local listen address"), l.pick("本机端口", "Local port")),
            ForwardKind::Remote => (l.pick("远端监听地址", "Remote listen address"), l.pick("远端端口", "Remote port")),
            ForwardKind::Socks5 => (l.pick("SOCKS5 监听地址", "SOCKS5 listen address"), l.pick("SOCKS5 端口", "SOCKS5 port")),
        }
    } else {
        match kind {
            ForwardKind::Remote => (l.pick("本机目标地址", "Local target address"), l.pick("本机目标端口", "Local target port")),
            _ => (l.pick("远端目标地址", "Remote target address"), l.pick("远端目标端口", "Remote target port")),
        }
    }
}

fn missing_fields(f: &TunnelFormValues, l: Language) -> (r: Vec<&'static str>)
    ensures
        r@.map_values(|s: &'static str| s@) == missing_labels(*f, l),
{
    let mut missing: Vec<&'static str> = Vec::new();
    let manual = f.jump_enabled && f.jump_host_id.is_none();
    let (lh, lp) = labels_of(f.kind, l, false);
    let (th, tp) = labels_of(f.kind, l, true);
    require(&mut missing, &f.name, l.pick("名称", "Name"));
    require(&mut missing, &f.ssh_host, l.pick("SSH 主机", "SSH host"));
    require(&mut missing, &f.ssh_port, l.pick("SSH 端口", "SSH port"));
    require(&mut missing, &f.ssh_user, l.pick("SSH 用户", "SSH user"));
    require(&mut missing, &f.listen_host, lh);
    require(&mut missing, &f.listen_port, lp);
    let ghost before_target = missing@.map_values(|s: &'static str| s@);
    if f.kind != ForwardKind::Socks5 {
        require(&mut missing, &f.target_host, th);
        require(&mut missing, &f.target_port, tp);
    }
    assert(missing@.map_values(|s: &'static str| s@) =~= before_target + (if f.kind != ForwardKind::Socks5 {
        if_blank(f.target_host@, th@) + if_blank(f.target_port@, tp@)
    } else {
        Seq::<Seq<char>>::empty()
    }));
    require(&mut missing, &f.retry_count, l.pick("重试次数", "Retry count"));
    require(&mut missing, &f.retry_interval, l.pick("重试间隔", "Retry interval"));
    let ghost before_jump = missing@.map_values(|s: &'static str| s@);
    if manual {
        require(&mut missing, &f.jump_host, l.pick("跳板机主机", "Jump host"));
        require(&mut missing, &f.jump_port, l.pick("跳板机端口", "Jump host port"));
        require(&mut missing, &f.jump_user, l.pick("跳板机用户", "Jump host user"));
    }
    assert(missing@.map_values(|s: &'static str| s@) =~= before_jump + (if manual_jump(*f) {
        if_blank(f.jump_host@, tr(l, "跳板机主机"@, "Jump host"@)) + if_blank(
            f.jump_port@,
            tr(l, "跳板机端口"@, "Jump host port"@),
        ) + if_blank(f.jump_user@, tr(l, "跳板机用户"@, "Jump host user"@))
    } else {
        Seq::<Seq<char>>::empty()
    }));
    assert(missing@.map_values(|s: &'static str| s@) =~= missing_labels(*f, l));
    missing
}

fn join_labels(labels: &Vec<&'static str>, sep: &str) -> (r: String)
    ensures
        r@ == join_text(labels@.map_values(|s: &'static str| s@), sep@),
{
    let ghost all = labels@.map_values(|s: &'static str| s@);
    let mut r = String::new();
    let mut i: usize = 0;
    assert(all.subrange(0, 0) =~= Seq::<Seq<char>>::empty());
    while i < labels.len()
        invariant
            i <= labels@.len(),
            all == labels@.map_values(|s: &'static str| s@),
            r@ == join_text(all.subrange(0, i as int), sep@),
        decreases labels@.len() - i,
    {
        if i > 0 {
            push_str(&mut r, sep);
        }
        push_str(&mut r, labels[i]);
        let ghost p = all.subrange(0, i + 1);
        assert(p.drop_last() =~= all.subrange(0, i as int));
        assert(p.last() == labels@[i as int]@);
        if i == 0 {
            assert(r@ =~= join_text(p, sep@));
        }
        i += 1;
    }
    assert(all.subrange(0, all.len() as int) =~= all);
    r
}

fn labelled_message(label: &str, rest: &str) -> (r: String)
    ensures
        r@ == label@ + rest@,
{
    let mut s = owned(label);
    push_str(&mut s, rest);
    s
}

fn port_error(label: &'static str, l: Language) -> (r: String)
    ensures
        r@ == port_message(label@, l),
{
    labelled_message(label, l.pick("必须是 1–65535 的端口", " must be a port from 1 to 65535"))
}

fn count_error(label: &'static str, l: Language) -> (r: String)
    ensures
        r@ == count_message(label@, l),
{
    labelled_message(label, l.pick("必须是非负整数", " must be a non-negative integer"))
}

fn optional_unless_blank(text: &String) -> (r: Option<String>)
    ensures
        opt_view(r) == unless_blank(text@),
{
    if is_blank(text.as_str()) {
        None
    } else {
        Some(text.clone())
    }
}

fn optional_unless_empty(text: &String) -> (r: Option<String>)
    ensures
        opt_view(r) == unless_empty(text@),
{
    let v = chars_of(text.as_str());
    if v.len() == 0 {
        None
    } else {
        Some(text.clone())
    }
}

/// The tunnel that the editor's fields describe. A tunnel being edited keeps its
/// id; a new one gets `new_id`. The fields are checked first (blank required fields,
/// then the numbers), then the tunnel as a whole; a rejection says whether the
/// advanced section holds a wrong number.
pub fn tunnel_from_form(f: &TunnelFormValues, l: Language, new_id: &str) -> (r: Result<Tunnel, FormRejection>)
    ensures
        ({
            let id = match f.editing_id {
                Some(e) => e@,
                None => new_id@,
            };
            match r {
                Ok(t) => field_error(*f, l) is None && describes(t, *f, id) && tunnel_error(t) is None,
                Err(rejection) => rejection.open_advanced == advanced_error(*f) && match field_error(*f, l) {
                    Some(m) => rejection.message@ == m,
                    None => exists|t: Tunnel| describes(t, *f, id) && tunnel_error(t) == Some(rejection.message@),
                },
            }
        }),
{
    let advanced = count_field(&f.retry_count).is_none() || count_field(&f.retry_interval).is_none() || (
    f.jump_enabled && f.jump_host_id.is_none() && port_field(&f.jump_port).is_none());
    let missing = missing_fields(f, l);
    if missing.len() > 0 {
        let joined = join_labels(&missing, l.pick("、", ", "));
        let message = labelled_message(l.pick("请填写以下必填项：", "Complete the required fields: "), joined.as_str());
        return Err(FormRejection { message, open_advanced: advanced });
    }
    let listen_port = match port_field(&f.listen_port) {
        Some(p) => p,
        None => {
            return Err(FormRejection { message: port_error(l.pick("监听端口", "Listen port"), l), open_advanced: advanced });
        },
    };
    let listen = Endpoint { host: f.listen_host.clone(), port: listen_port };
    let forward = match f.kind {
        ForwardKind::Socks5 => ForwardSpec::Socks5 { listen },
        _ => {
            let target_port = match port_field(&f.target_port) {
                Some(p) => p,
                None => {
                    return Err(
                        FormRejection { message: port_error(l.pick("目标端口", "Target port"), l), open_advanced: advanced },
                    );
                },
            };
            let target = Endpoint { host: f.target_host.clone(), port: target_port };
            if f.kind == ForwardKind::Local {
                ForwardSpec::Local { listen, target }
            } else {
                ForwardSpec::Remote { listen, target }
            }
        },
    };
    let id = match &f.editing_id {
        Some(e) => e.clone(),
        None => owned(new_id),
    };
    let manual = f.jump_enabled && f.jump_host_id.is_none();
    let jump_port = if manual {
        match port_field(&f.jump_port) {
            Some(p) => Some(p),
            None => {
                return Err(
                    FormRejection { message: port_error(l.pick("跳板机端口", "Jump host port"), l), open_advanced: advanced },
                );
            },
        }
    } else {
        None
    };
    let ssh_port = match port_field(&f.ssh_port) {
        Some(p) => p,
        None => {
            return Err(FormRejection { message: port_error(l.pick("SSH 端口", "SSH port"), l), open_advanced: advanced });
        },
    };
    let retry_count = match count_field(&f.retry_count) {
        Some(n) => n,
        None => {
            return Err(FormRejection { message: count_error(l.pick("重试次数", "Retry count"), l), open_advanced: advanced });
        },
    };
    let retry_interval = match count_field(&f.retry_interval) {
        Some(n) => n,
        None => {
            return Err(
                FormRejection { message: count_error(l.pick("重试间隔", "Retry interval"), l), open_advanced: advanced },
            );
        },
    };
    let tunnel = Tunnel {
        id,
        name: f.name.clone(),
        description: optional_unless_blank(&f.description),
        group_id: clone_opt_string(&f.group_id),
        ssh_host: f.ssh_host.clone(),
        ssh_port,
        ssh_user: f.ssh_user.clone(),
        ssh_identity_file: optional_unless_blank(&f.identity_file),
        ssh_password: optional_unless_empty(&f.ssh_password),
        jump_host_enabled: f.jump_enabled,
        jump_host_id: if f.jump_enabled {
            clone_opt_string(&f.jump_host_id)
        } else {
            None
        },
        jump_host: if manual {
            Some(f.jump_host.clone())
        } else {
            None
        },
        jump_port,
        jump_user: if manual {
            Some(f.jump_user.clone())
        } else {
            None
        },
        jump_identity_file: if manual {
            optional_unless_blank(&f.jump_identity_file)
        } else {
            None
        },
        jump_password: if manual {
            optional_unless_empty(&f.jump_password)
        } else {
            None
        },
        forward,
        start_with_app: f.start_with_app,
        auto_reconnect: f.auto_reconnect,
        retry_count,
        retry_interval,
    };
    match validate_tunnel(&tunnel) {
        Ok(()) => Ok(tunnel),
        Err(message) => Err(FormRejection { message, open_advanced: advanced }),
    }
}

/// The tunnel that the editor's fields describe, with a fresh random id for a new
/// tunnel.
pub fn save_form_tunnel(f: &TunnelFormValues, l: Language) -> (r: Result<Tunnel, FormRejection>)
    ensures
        f.editing_id is Some ==> match r {
            Ok(t) => field_error(*f, l) is None && describes(t, *f, f.editing_id->0@) && tunnel_error(t) is None,
            Err(rejection) => rejection.open_advanced == advanced_error(*f) && match field_error(*f, l) {
                Some(m) => rejection.message@ == m,
                None => exists|t: Tunnel|
                    describes(t, *f, f.editing_id->0@) && tunnel_error(t) == Some(rejection.message@),
            },
        },
        f.editing_id is None ==> match r {
            Ok(t) => field_error(*f, l) is None && tunnel_error(t) is None && crate::event_log::uuid_v4_text(t.id@)
                && describes(t, *f, t.id@),
            Err(rejection) => match field_error(*f, l) {
                Some(m) => rejection.message@ == m,
                None => exists|id: Seq<char>, t: Tunnel|
                    #[trigger] describes(t, *f, id) && tunnel_error(t) == Some(rejection.message@),
            },
        },
        r is Err ==> r->Err_0.open_advanced == advanced_error(*f),
{
    let new_id = crate::event_log::new_uuid().1;
    let r = tunnel_from_form(f, l, new_id.as_str());
    proof {
        if f.editing_id is None {
            if r is Ok {
                assert(describes(r->Ok_0, *f, new_id@));
            } else if field_error(*f, l) is None {
                let t = choose|t: Tunnel| describes(t, *f, new_id@) && tunnel_error(t) == Some(r->Err_0.message@);
                assert(describes(t, *f, new_id@));
            }
        }
    }
    r
}

/// The editor's fields for a saved tunnel, or for a new one: a new tunnel forwards
/// local port 5432, reconnects automatically and when the application starts, and is
/// started once saved.
pub open spec fn prefilled(f: TunnelFormValues, t: Option<Tunnel>) -> bool {
    match t {
        None => {
            &&& f.editing_id is None
            &&& f.kind == ForwardKind::Local
            &&& f.start_after_save
            &&& f.auto_reconnect
            &&& f.start_with_app
            &&& !f.jump_enabled
            &&& f.jump_host_id is None
            &&& f.group_id is None
            &&& f.name@.len() == 0 && f.description@.len() == 0 && f.ssh_host@.len() == 0
            &&& f.ssh_port@ == "22"@
            &&& f.ssh_user@.len() == 0 && f.identity_file@.len() == 0 && f.ssh_password@.len() == 0
            &&& f.jump_host@.len() == 0 && f.jump_port@ == "22"@ && f.jump_user@.len() == 0
            &&& f.jump_identity_file@.len() == 0 && f.jump_password@.len() == 0
            &&& f.listen_host@ == "127.0.0.1"@ && f.listen_port@ == "5432"@
            &&& f.target_host@ == "127.0.0.1"@ && f.target_port@ == "5432"@
            &&& f.retry_count@ == "3"@ && f.retry_interval@ == "5"@
        },
        Some(t) => {
            &&& opt_view(f.editing_id) == Some(t.id@)
            &&& f.kind == (match t.forward {
                ForwardSpec::Local { .. } => ForwardKind::Local,
                ForwardSpec::Remote { .. } => ForwardKind::Remote,
                ForwardSpec::Socks5 { .. } => ForwardKind::Socks5,
            })
            &&& !f.start_after_save
            &&& f.auto_reconnect == t.auto_reconnect
            &&& f.start_with_app == t.start_with_app
            &&& f.jump_enabled == t.jump_host_enabled
            &&& opt_view(f.jump_host_id) == opt_view(t.jump_host_id)
            &&& opt_view(f.group_id) == opt_view(t.group_id)
            &&& f.name@ == t.name@
            &&& f.description@ == or_empty(t.description)
            &&& f.ssh_host@ == t.ssh_host@
            &&& f.ssh_port@ == decimal(t.ssh_port as nat)
            &&& f.ssh_user@ == t.ssh_user@
            &&& f.identity_file@ == or_empty(t.ssh_identity_file)
            &&& f.ssh_password@ == or_empty(t.ssh_password)
            &&& f.jump_host@ == or_empty(t.jump_host)
            &&& f.jump_port@ == decimal(
                (match t.jump_port {
                    Some(p) => p,
                    None => 22,
                }) as nat,
            )
            &&& f.jump_user@ == or_empty(t.jump_user)
            &&& f.jump_identity_file@ == or_empty(t.jump_identity_file)
            &&& f.jump_password@ == or_empty(t.jump_password)
            &&& f.listen_host@ == t.forward.listen_spec().host@
            &&& f.listen_port@ == decimal(t.forward.listen_spec().port as nat)
            &&& f.target_host@ == (match t.forward.target_spec() {
                Some(e) => e.host@,
                None => "127.0.0.1"@,
            })
            &&& f.target_port@ == decimal(
                (match t.forward.target_spec() {
                    Some(e) => e.port,
                    None => 80,
                }) as nat,
            )
            &&& f.retry_count@ == decimal(t.retry_count as nat)
            &&& f.retry_interval@ == decimal(t.retry_interval as nat)
        },
    }
}

fn text_of(o: &Option<String>) -> (r: String)
    ensures
        r@ == or_empty(*o),
{
    match o {
        Some(s) => s.clone(),
        None => String::new(),
    }
}

/// The editor's fields, filled from a saved tunnel or with the defaults of a new one.
pub fn form_values_for(tunnel: Option<&Tunnel>) -> (r: TunnelFormValues)
    ensures
        prefilled(
            r,
            match tunnel {
                Some(t) => Some(*t),
                None => None,
            },
        ),
{
    match tunnel {
        None => TunnelFormValues {
            editing_id: None,
            kind: ForwardKind::Local,
            start_after_save: true,
            auto_reconnect: true,
            start_with_app: true,
            jump_enabled: false,
            jump_host_id: None,
            group_id: None,
            name: String::new(),
            description: String::new(),
            ssh_host: String::new(),
            ssh_port: owned("22"),
            ssh_user: String::new(),
            identity_file: String::new(),
            ssh_password: String::new(),
            jump_host: String::new(),
            jump_port: owned("22"),
            jump_user: String::new(),
            jump_identity_file: String::new(),
            jump_password: String::new(),
            listen_host: owned("127.0.0.1"),
            listen_port: owned("5432"),
            target_host: owned("127.0.0.1"),
            target_port: owned("5432"),
            retry_count: owned("3"),
            retry_interval: owned("5"),
        },
        Some(t) => {
            let listen = t.forward.listen();
            let (kind, target_host, target_port) = match &t.forward {
                ForwardSpec::Local { target, .. } => (ForwardKind::Local, target.host.clone(), target.port),
                ForwardSpec::Remote { target, .. } => (ForwardKind::Remote, target.host.clone(), target.port),
                ForwardSpec::Socks5 { .. } => (ForwardKind::Socks5, owned("127.0.0.1"), 80u16),
            };
            TunnelFormValues {
                editing_id: Some(t.id.clone()),
                kind,
                start_after_save: false,
                auto_reconnect: t.auto_reconnect,
                start_with_app: t.start_with_app,
                jump_enabled: t.jump_host_enabled,
                jump_host_id: clone_opt_string(&t.jump_host_id),
                group_id: clone_opt_string(&t.group_id),
                name: t.name.clone(),
                description: text_of(&t.description),
                ssh_host: t.ssh_host.clone(),
                ssh_port: decimal_string(t.ssh_port as u64),
                ssh_user: t.ssh_user.clone(),
                identity_file: text_of(&t.ssh_identity_file),
                ssh_password: text_of(&t.ssh_password),
                jump_host: text_of(&t.jump_host),
                jump_port: decimal_string(
                    match t.jump_port {
                        Some(p) => p,
                        None => 22,
                    } as u64,
                ),
                jump_user: text_of(&t.jump_user),
                jump_identity_file: text_of(&t.jump_identity_file),
                jump_password: text_of(&t.jump_password),
                listen_host: listen.host.clone(),
                listen_port: decimal_string(listen.port as u64),
                target_host,
                target_port: decimal_string(target_port as u64),
                retry_count: decimal_string(t.retry_count as u64),
                retry_interval: decimal_string(t.retry_interval as u64),
            }
        },
    }
}

proof fn lemma_decimal_is_plain(n: nat)
    ensures
        trim(decimal(n)) == decimal(n),
        !blank(decimal(n)),
        decimal(n).len() > 0,
{
    lemma_decimal_digits(n);
    let d = decimal(n);
    assert(is_digit(d[0]));
    assert(is_digit(d.last()));
    assert(!is_ws(d[0]));
    assert(!is_ws(d.last()));
    assert(trim_start(d) == d);
    assert(trim_end(d) == d);
}

proof fn lemma_count_decimal(n: u32)
    ensures
        form_count(decimal(n as nat)) == Some(n),
{
    lemma_decimal_is_plain(n as nat);
    lemma_decimal_digits(n as nat);
    let d = decimal(n as nat);
    assert(is_digit(d[0]));
}

proof fn lemma_port_decimal(p: u16)
    requires
        p > 0,
    ensures
        form_port(decimal(p as nat)) == Some(p),
{
    lemma_decimal_is_plain(p as nat);
    lemma_parse_decimal(p);
}

/// A saved tunnel in its plain form: optional texts that are either absent or not
/// blank, passwords absent or not empty, and no jump host fields that the editor
/// would not show (a jump host, where one is used, is entered by hand).
pub open spec fn plain_tunnel(t: Tunnel) -> bool {
    &&& (t.description matches Some(d) ==> !blank(d@))
    &&& (t.ssh_identity_file matches Some(d) ==> !blank(d@))
    &&& (t.ssh_password matches Some(d) ==> d@.len() > 0)
    &&& t.jump_host_id is None
    &&& if t.jump_host_enabled {
        &&& (t.jump_identity_file matches Some(d) ==> !blank(d@))
        &&& (t.jump_password matches Some(d) ==> d@.len() > 0)
    } else {
        t.jump_host is None && t.jump_port is None && t.jump_user is None && t.jump_identity_file is None
            && t.jump_password is None
    }
}

/// Opening a saved, valid tunnel in the editor and saving it unchanged describes that
/// same tunnel, under its own id: the fields pass every check.
#[verifier::spinoff_prover]
#[verifier::rlimit(60)]
pub proof fn lemma_unchanged_form_describes_tunnel(t: Tunnel, f: TunnelFormValues, l: Language)
    requires
        prefilled(f, Some(t)),
        tunnel_error(t) is None,
        plain_tunnel(t),
    ensures
        field_error(f, l) is None,
        describes(t, f, t.id@),
{
    lemma_decimal_is_plain(t.ssh_port as nat);
    lemma_decimal_is_plain(t.forward.listen_spec().port as nat);
    lemma_decimal_is_plain(t.retry_count as nat);
    lemma_decimal_is_plain(t.retry_interval as nat);
    lemma_port_decimal(t.ssh_port);
    lemma_port_decimal(t.forward.listen_spec().port);
    lemma_count_decimal(t.retry_count);
    lemma_count_decimal(t.retry_interval);
    match t.forward.target_spec() {
        Some(e) => {
            lemma_decimal_is_plain(e.port as nat);
            lemma_port_decimal(e.port);
        },
        None => {},
    }
    if t.jump_host_enabled {
        let p = t.jump_port->0;
        lemma_decimal_is_plain(p as nat);
        lemma_port_decimal(p);
    }
    assert(missing_labels(f, l) =~= Seq::<Seq<char>>::empty());
}

/// Which host fields a picked SSH config entry fills.
#[derive(Debug, Clone, Copy, PartialEq, Eq, Structural)]
pub enum SshPickerTarget {
    Primary,
    JumpHost,
}

/// The fields that picking an SSH config entry leaves alone.
pub open spec fn untouched_by_pick(a: TunnelFormValues, b: TunnelFormValues, target: SshPickerTarget) -> bool {
    &&& a.editing_id == b.editing_id && a.kind == b.kind && a.start_after_save == b.start_after_save
    &&& a.auto_reconnect == b.auto_reconnect && a.start_with_app == b.start_with_app
    &&& a.jump_enabled == b.jump_enabled && a.group_id == b.group_id
    &&& a.name == b.name && a.description == b.description && a.ssh_password == b.ssh_password
    &&& a.jump_password == b.jump_password
    &&& a.listen_host == b.listen_host && a.listen_port == b.listen_port
    &&& a.target_host == b.target_host && a.target_port == b.target_port
    &&& a.retry_count == b.retry_count && a.retry_interval == b.retry_interval
    &&& if target == SshPickerTarget::Primary {
        &&& a.jump_host_id == b.jump_host_id
        &&& a.jump_host == b.jump_host && a.jump_port == b.jump_port && a.jump_user == b.jump_user
        &&& a.jump_identity_file == b.jump_identity_file
    } else {
        &&& a.ssh_host == b.ssh_host && a.ssh_port == b.ssh_port && a.ssh_user == b.ssh_user
        &&& a.identity_file == b.identity_file
    }
}

/// A field that an entry's value fills where it has one.
pub open spec fn filled(after: String, before: String, value: Option<Seq<char>>) -> bool {
    match value {
        Some(v) => after@ == v,
        None => after == before,
    }
}

/// Fills the host fields of the form (or those of the jump host) from an SSH config
/// entry: its resolved host name (the alias where it has none), and its port, user
/// and identity file where it has them. A jump host filled this way is entered by
/// hand, so a picked saved jump host is dropped.
pub fn apply_ssh_host(form: &mut TunnelFormValues, host: &SshHostConfig, target: SshPickerTarget)
    ensures
        untouched_by_pick(*final(form), *old(form), target),
        ({
            let resolved = match opt_view(host.host_name) {
                Some(n) => n,
                None => host.host@,
            };
            let port = match host.port {
                Some(p) => Some(decimal(p as nat)),
                None => None,
            };
            if target == SshPickerTarget::Primary {
                &&& final(form).ssh_host@ == resolved
                &&& filled(final(form).ssh_port, old(form).ssh_port, port)
                &&& filled(final(form).ssh_user, old(form).ssh_user, opt_view(host.user))
                &&& filled(final(form).identity_file, old(form).identity_file, opt_view(host.identity_file))
            } else {
                &&& final(form).jump_host_id is None
                &&& final(form).jump_host@ == resolved
                &&& filled(final(form).jump_port, old(form).jump_port, port)
                &&& filled(final(form).jump_user, old(form).jump_user, opt_view(host.user))
                &&& filled(final(form).jump_identity_file, old(form).jump_identity_file, opt_view(host.identity_file))
            }
        }),
{
    let resolved = match &host.host_name {
        Some(n) => n.clone(),
        None => host.host.clone(),
    };
    if target == SshPickerTarget::Primary {
        form.ssh_host = resolved;
        if let Some(p) = host.port {
            form.ssh_port = decimal_string(p as u64);
        }
        if let Some(u) = &host.user {
            form.ssh_user = u.clone();
        }
        if let Some(path) = &host.identity_file {
            form.identity_file = path.clone();
        }
    } else {
        form.jump_host_id = None;
        form.jump_host = resolved;
        if let Some(p) = host.port {
            form.jump_port = decimal_string(p as u64);
        }
        if let Some(u) = &host.user {
            form.jump_user = u.clone();
        }
        if let Some(path) = &host.identity_file {
            form.jump_identity_file = path.clone();
        }
    }
}

} // verus!
