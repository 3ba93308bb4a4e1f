//! Matching SSH server names against `known_hosts` entries and deciding whether a
//! server key is trusted.

use vstd::prelude::*;
use vstd::string::StringSliceAdditionalSpecFns;
use crate::text::{decimal, decimal_string, owned, push_str, push_char};
use russh::keys::ssh_key::known_hosts::{HostPatterns as SshPatterns, KnownHosts, Marker};
use russh::keys::ssh_key::HashAlg;

verus! {

/// The marker in front of a `known_hosts` entry.
#[derive(Debug, Clone, Copy, PartialEq, Eq, Structural)]
pub enum HostMarker {
    CertAuthority,
    Revoked,
}

/// The host part of a `known_hosts` entry: plain patterns, or one hashed name.
#[derive(Debug, PartialEq, Eq)]
pub enum HostPatterns {
    Patterns(Vec<String>),
    HashedName { salt: Vec<u8>, hash: [u8; 20] },
}

/// ASCII lowercase of one byte.
pub open spec fn lower_byte(b: u8) -> u8 {
    if 65 <= b && b <= 90 {
        (b + 32) as u8
    } else {
        b
    }
}

/// ASCII lowercase of a byte string.
pub open spec fn lower_bytes(s: Seq<u8>) -> Seq<u8> {
    Seq::new(s.len(), |i: int| lower_byte(s[i]))
}

/// `p` matches all of `v`: `*` stands for any run of bytes, `?` for one byte, and
/// every other byte for itself.
pub open spec fn glob(p: Seq<u8>, v: Seq<u8>) -> bool
    decreases p.len(), v.len(),
{
    if p.len() == 0 {
        v.len() == 0
    } else {
        let t = p.last();
        if t == 42 {
            glob(p.drop_last(), v) || (v.len() > 0 && glob(p, v.drop_last()))
        } else if t == 63 {
            v.len() > 0 && glob(p.drop_last(), v.drop_last())
        } else {
            v.len() > 0 && v.last() == t && glob(p.drop_last(), v.drop_last())
        }
    }
}

/// The UTF-8 bytes of a text.
pub open spec fn bytes_of(s: Seq<char>) -> Seq<u8> {
    vstd::utf8::encode_utf8(s)
}

/// A host pattern matches a name, ignoring ASCII case.
pub open spec fn wildcard_matches(pattern: Seq<char>, value: Seq<char>) -> bool {
    glob(lower_bytes(bytes_of(pattern)), lower_bytes(bytes_of(value)))
}

fn lowercase_bytes(s: &[u8]) -> (r: Vec<u8>)
    ensures
        r@ == lower_bytes(s@),
{
    let mut r: Vec<u8> = Vec::new();
    let mut i: usize = 0;
    while i < s.len()
        invariant
            i <= s@.len(),
            r@ == lower_bytes(s@.subrange(0, i as int)),
        decreases s@.len() - i,
    {
        let b = s[i];
        let l = if 65 <= b && b <= 90 {
            b + 32
        } else {
            b
        };
        r.push(l);
        assert(lower_bytes(s@.subrange(0, i + 1)) =~= lower_bytes(s@.subrange(0, i as int)).push(l));
        i += 1;
    }
    assert(s@.subrange(0, s@.len() as int) == s@);
    r
}

/// Matches bytes of a lowercased pattern against bytes of a lowercased value.
fn glob_bytes(p: &Vec<u8>, v: &Vec<u8>) -> (r: bool)
    ensures
        r == glob(p@, v@),
{
    let n = v.len();
    let mut previous: Vec<bool> = Vec::new();
    previous.push(true);
    let mut j: usize = 0;
    while j < n
        invariant
            j <= n,
            n == v@.len(),
            previous@.len() == j + 1,
            forall|x: int| 0 <= x <= j ==> previous@[x] == (x == 0),
        decreases n - j,
    {
        previous.push(false);
        j += 1;
    }
    proof {
        assert forall|x: int| 0 <= x <= n implies previous@[x] == glob(
            p@.subrange(0, 0),
            v@.subrange(0, x),
        ) by {
            assert(p@.subrange(0, 0).len() == 0);
        }
    }
    let mut k: usize = 0;
    while k < p.len()
        invariant
            k <= p@.len(),
            n == v@.len(),
            previous@.len() == n + 1,
            forall|x: int|
                0 <= x <= n ==> #[trigger] previous@[x] == glob(
                    p@.subrange(0, k as int),
                    v@.subrange(0, x),
                ),
        decreases p@.len() - k,
    {
        let token = p[k];
        let ghost pk = p@.subrange(0, k as int);
        let ghost pk1 = p@.subrange(0, k + 1);
        assert(pk1.drop_last() == pk);
        assert(pk1.last() == token);
        let mut current: Vec<bool> = Vec::new();
        let first = if token == 42 {
            previous[0]
        } else {
            false
        };
        current.push(first);
        let mut x: usize = 0;
        while x < n
            invariant
                x <= n,
                n == v@.len(),
                previous@.len() == n + 1,
                current@.len() == x + 1,
                pk1.drop_last() == pk,
                pk1.last() == token,
                pk1.len() > 0,
                forall|y: int|
                    0 <= y <= n ==> #[trigger] previous@[y] == glob(pk, v@.subrange(0, y)),
                forall|y: int| 0 <= y <= x ==> #[trigger] current@[y] == glob(pk1, v@.subrange(0, y)),
            decreases n - x,
        {
            x += 1;
            let ghost vx = v@.subrange(0, x as int);
            proof {
                assert(vx.drop_last() == v@.subrange(0, x - 1));
                assert(vx.last() == v@[x - 1]);
            }
            let value = if token == 42 {
                previous[x] || current[x - 1]
            } else if token == 63 {
                previous[x - 1]
            } else {
                previous[x - 1] && v[x - 1] == token
            };
            current.push(value);
        }
        previous = current;
        k += 1;
    }
    assert(p@.subrange(0, p@.len() as int) == p@);
    assert(v@.subrange(0, n as int) == v@);
    previous[n]
}

/// Matches a host pattern (`*`, `?`, other bytes literal) against a name,
/// ignoring ASCII case.
pub fn wildcard_match(pattern: &str, value: &str) -> (r: bool)
    ensures
        r == wildcard_matches(pattern@, value@),
{
    let p = lowercase_bytes(pattern.as_bytes());
    let v = lowercase_bytes(value.as_bytes());
    glob_bytes(&p, &v)
}

/// HMAC-SHA1 of `message` under `key`, as `ring::hmac::sign` computes it.
pub uninterp spec fn hmac_sha1(key: Seq<u8>, message: Seq<u8>) -> Seq<u8>;

/// Computes HMAC-SHA1 with `ring::hmac` (`HMAC_SHA1_FOR_LEGACY_USE_ONLY`); the tag is
/// a function of the key and the message alone.
#[verifier::external_body]
fn hmac_sha1_tag(key: &[u8], message: &[u8]) -> (r: Vec<u8>)
    ensures
        r@ == hmac_sha1(key@, message@),
{
    let key = ring::hmac::Key::new(ring::hmac::HMAC_SHA1_FOR_LEGACY_USE_ONLY, key);
    ring::hmac::sign(&key, message).as_ref().to_vec()
}

/// A pattern with its `!` prefix removed, and whether it had one.
pub open spec fn split_negation(p: Seq<u8>) -> (bool, Seq<u8>) {
    if p.len() > 0 && p[0] == 33 {
        (true, p.drop_first())
    } else {
        (false, p)
    }
}

/// Some name matches the pattern bytes, ignoring ASCII case.
pub open spec fn some_name_matches(pattern: Seq<u8>, names: Seq<String>) -> bool {
    exists|i: int|
        0 <= i < names.len() && glob(lower_bytes(pattern), lower_bytes(bytes_of(#[trigger] names[i]@)))
}

/// The host patterns of an entry cover one of `names`: for hashed names, the HMAC of
/// a name under the salt is the stored hash; for patterns, some pattern without `!`
/// matches a name and no pattern with `!` does.
pub open spec fn patterns_cover(patterns: HostPatterns, names: Seq<String>) -> bool {
    match patterns {
        HostPatterns::HashedName { salt, hash } => exists|i: int|
            0 <= i < names.len() && hmac_sha1(salt@, bytes_of(#[trigger] names[i]@)) == hash@,
        HostPatterns::Patterns(ps) => {
            &&& exists|k: int|
                0 <= k < ps@.len() && !split_negation(bytes_of(#[trigger] ps@[k]@)).0
                    && some_name_matches(split_negation(bytes_of(ps@[k]@)).1, names)
            &&& forall|k: int|
                0 <= k < ps@.len() && split_negation(bytes_of(#[trigger] ps@[k]@)).0
                    ==> !some_name_matches(split_negation(bytes_of(ps@[k]@)).1, names)
        },
    }
}

fn any_name_matches(pattern: &Vec<u8>, names: &Vec<String>) -> (r: bool)
    ensures
        r == some_name_matches(pattern@, names@),
{
    let lp = lowercase_bytes(pattern.as_slice());
    let mut i: usize = 0;
    while i < names.len()
        invariant
            i <= names@.len(),
            lp@ == lower_bytes(pattern@),
            forall|j: int|
                0 <= j < i ==> !glob(lower_bytes(pattern@), lower_bytes(bytes_of(#[trigger] names@[j]@))),
        decreases names@.len() - i,
    {
        let lv = lowercase_bytes(names[i].as_str().as_bytes());
        if glob_bytes(&lp, &lv) {
            return true;
        }
        i += 1;
    }
    false
}

fn slice_to_vec(s: &[u8]) -> (r: Vec<u8>)
    ensures
        r@ == s@,
{
    let mut r: Vec<u8> = Vec::new();
    let mut i: usize = 0;
    while i < s.len()
        invariant
            i <= s@.len(),
            r@ == s@.subrange(0, i as int),
        decreases s@.len() - i,
    {
        r.push(s[i]);
        assert(s@.subrange(0, i + 1) == s@.subrange(0, i as int).push(s@[i as int]));
        i += 1;
    }
    assert(s@.subrange(0, s@.len() as int) == s@);
    r
}

fn bytes_equal(a: &Vec<u8>, b: &[u8]) -> (r: bool)
    ensures
        r == (a@ == b@),
{
    if a.len() != b.len() {
        return false;
    }
    let mut i: usize = 0;
    while i < a.len()
        invariant
            i <= a@.len(),
            a@.len() == b@.len(),
            forall|j: int| 0 <= j < i ==> a@[j] == b@[j],
        decreases a@.len() - i,
    {
        if a[i] != b[i] {
            return false;
        }
        i += 1;
    }
    assert(a@ =~= b@);
    true
}

/// Whether an entry's host patterns cover one of the names the server is known by.
pub fn known_host_patterns_match(patterns: &HostPatterns, host_names: &Vec<String>) -> (r: bool)
    ensures
        r == patterns_cover(*patterns, host_names@),
{
    match patterns {
        HostPatterns::HashedName { salt, hash } => {
            let mut i: usize = 0;
            while i < host_names.len()
                invariant
                    i <= host_names@.len(),
                    *patterns == (HostPatterns::HashedName { salt: *salt, hash: *hash }),
                    forall|j: int|
                        0 <= j < i ==> hmac_sha1(salt@, bytes_of(#[trigger] host_names@[j]@))
                            != hash@,
                decreases host_names@.len() - i,
            {
                let tag = hmac_sha1_tag(salt.as_slice(), host_names[i].as_str().as_bytes());
                if bytes_equal(&tag, hash.as_slice()) {
                    assert(hmac_sha1(salt@, bytes_of(host_names@[i as int]@)) == hash@);
                    return true;
                }
                i += 1;
            }
            false
        },
        HostPatterns::Patterns(ps) => {
            let mut positive_match = false;
            let mut k: usize = 0;
            while k < ps.len()
                invariant
                    k <= ps@.len(),
                    *patterns == HostPatterns::Patterns(*ps),
                    positive_match == exists|m: int|
                        0 <= m < k && !split_negation(bytes_of(#[trigger] ps@[m]@)).0
                            && some_name_matches(split_negation(bytes_of(ps@[m]@)).1, host_names@),
                    forall|m: int|
                        0 <= m < k && split_negation(bytes_of(#[trigger] ps@[m]@)).0
                            ==> !some_name_matches(split_negation(bytes_of(ps@[m]@)).1, host_names@),
                decreases ps@.len() - k,
            {
                let all = slice_to_vec(ps[k].as_str().as_bytes());
                let negated = all.len() > 0 && all[0] == 33;
                let pattern = if negated {
                    let mut rest: Vec<u8> = Vec::new();
                    let mut i: usize = 1;
                    while i < all.len()
                        invariant
                            1 <= i <= all@.len(),
                            rest@ == all@.subrange(1, i as int),
                        decreases all@.len() - i,
                    {
                        rest.push(all[i]);
                        assert(all@.subrange(1, i + 1) == all@.subrange(1, i as int).push(all@[i as int]));
                        i += 1;
                    }
                    assert(rest@ == all@.drop_first());
                    rest
                } else {
                    all
                };
                assert(all@ == bytes_of(ps@[k as int]@));
                assert(negated == split_negation(bytes_of(ps@[k as int]@)).0);
                assert(pattern@ == split_negation(bytes_of(ps@[k as int]@)).1);
                if any_name_matches(&pattern, host_names) {
                    if negated {
                        return false;
                    }
                    positive_match = true;
                }
                k += 1;
            }
            positive_match
        },
    }
}

/// The names a server is recorded under: the host itself on port 22, otherwise
/// `[host]:port`.
pub open spec fn host_names_spec(host: Seq<char>, port: u16) -> Seq<Seq<char>> {
    if port == 22 {
        seq![host]
    } else {
        seq!["["@ + host + "]:"@ + decimal(port as nat)]
    }
}

/// The names a server is recorded under in `known_hosts`.
pub fn known_host_names(host: &str, port: u16) -> (r: Vec<String>)
    ensures
        r@.map_values(|s: String| s@) == host_names_spec(host@, port),
{
    let mut r: Vec<String> = Vec::new();
    if port == 22 {
        r.push(owned(host));
    } else {
        let mut s = owned("[");
        push_str(&mut s, host);
        push_str(&mut s, "]:");
        let p = decimal_string(port as u64);
        push_str(&mut s, p.as_str());
        r.push(s);
    }
    assert(r@.map_values(|s: String| s@) =~= host_names_spec(host@, port));
    r
}

/// How a server key relates to what `known_hosts` records for the server.
#[derive(Debug, Clone, Copy, PartialEq, Eq, Structural)]
pub enum HostKeyStatus {
    Trusted,
    Unknown,
    Changed,
    Revoked,
}

/// What the status decision reads of one `known_hosts` entry: its marker, whether
/// its patterns cover the server, and whether its key is the server's key.
#[derive(Debug, Clone, Copy)]
pub struct EntryFacts {
    pub marker: Option<HostMarker>,
    pub covers_host: bool,
    pub same_key: bool,
}

/// An entry that speaks for the server: it covers the server and is no CA key.
pub open spec fn counts(e: EntryFacts) -> bool {
    e.covers_host && e.marker != Some(HostMarker::CertAuthority)
}

/// The status of a server key: revoked if a counting entry revokes that key, else
/// trusted if a counting entry holds it, else changed if the server has other keys,
/// else unknown.
pub open spec fn key_status(entries: Seq<EntryFacts>) -> HostKeyStatus {
    if exists|i: int|
        0 <= i < entries.len() && counts(#[trigger] entries[i]) && entries[i].same_key
            && entries[i].marker == Some(HostMarker::Revoked) {
        HostKeyStatus::Revoked
    } else if exists|i: int|
        0 <= i < entries.len() && counts(#[trigger] entries[i]) && entries[i].same_key {
        HostKeyStatus::Trusted
    } else if exists|i: int| 0 <= i < entries.len() && counts(#[trigger] entries[i]) {
        HostKeyStatus::Changed
    } else {
        HostKeyStatus::Unknown
    }
}

/// Decides how the server key stands, from the facts about each entry.
pub fn host_key_status(entries: &Vec<EntryFacts>) -> (r: HostKeyStatus)
    ensures
        r == key_status(entries@),
{
    let mut host_has_keys = false;
    let mut trusted = false;
    let mut revoked = false;
    let mut i: usize = 0;
    while i < entries.len()
        invariant
            i <= entries@.len(),
            host_has_keys == exists|j: int| 0 <= j < i && counts(#[trigger] entries@[j]),
            trusted == exists|j: int|
                0 <= j < i && counts(#[trigger] entries@[j]) && entries@[j].same_key
                    && entries@[j].marker != Some(HostMarker::Revoked),
            revoked == exists|j: int|
                0 <= j < i && counts(#[trigger] entries@[j]) && entries@[j].same_key
                    && entries@[j].marker == Some(HostMarker::Revoked),
        decreases entries@.len() - i,
    {
        let e = entries[i];
        let ca = match e.marker {
            Some(HostMarker::CertAuthority) => true,
            _ => false,
        };
        if e.covers_host && !ca {
            host_has_keys = true;
            if e.same_key {
                match e.marker {
                    Some(HostMarker::Revoked) => {
                        revoked = true;
                    },
                    _ => {
                        trusted = true;
                    },
                }
            }
        }
        i += 1;
    }
    if revoked {
        HostKeyStatus::Revoked
    } else if trusted {
        HostKeyStatus::Trusted
    } else if host_has_keys {
        HostKeyStatus::Changed
    } else {
        HostKeyStatus::Unknown
    }
}

/// The fingerprints saved for a server, from the entries of `known_hosts` and the
/// fingerprint of each entry's key: those of the entries that speak for the server,
/// each once, in the order they first occur.
pub open spec fn saved_list(entries: Seq<EntryFacts>, fingerprints: Seq<Seq<char>>) -> Seq<Seq<char>>
    decreases entries.len(),
{
    if entries.len() == 0 || fingerprints.len() == 0 {
        Seq::empty()
    } else {
        let prev = saved_list(entries.drop_last(), fingerprints.drop_last());
        if counts(entries.last()) && !prev.contains(fingerprints.last()) {
            prev.push(fingerprints.last())
        } else {
            prev
        }
    }
}

fn contains_string(v: &Vec<String>, s: &String) -> (r: bool)
    ensures
        r == v@.map_values(|x: String| x@).contains(s@),
{
    let ghost vv = v@.map_values(|x: String| x@);
    let mut i: usize = 0;
    while i < v.len()
        invariant
            i <= v@.len(),
            vv == v@.map_values(|x: String| x@),
            forall|j: int| 0 <= j < i ==> vv[j] != s@,
        decreases v@.len() - i,
    {
        if v[i] == *s {
            assert(vv[i as int] == s@);
            return true;
        }
        i += 1;
    }
    false
}

/// The fingerprints saved for a server: `fingerprints[i]` is that of the key of
/// `entries[i]`. Entries that do not speak for the server are passed over, and a
/// fingerprint is listed once.
pub fn saved_fingerprints(entries: &Vec<EntryFacts>, fingerprints: &Vec<String>) -> (r: Vec<String>)
    requires
        entries@.len() == fingerprints@.len(),
    ensures
        r@.map_values(|s: String| s@) == saved_list(entries@, fingerprints@.map_values(|s: String| s@)),
{
    let ghost fv = fingerprints@.map_values(|s: String| s@);
    let mut r: Vec<String> = Vec::new();
    let mut i: usize = 0;
    assert(entries@.subrange(0, 0) =~= Seq::<EntryFacts>::empty());
    while i < entries.len()
        invariant
            i <= entries@.len(),
            entries@.len() == fingerprints@.len(),
            fv == fingerprints@.map_values(|s: String| s@),
            r@.map_values(|s: String| s@) == saved_list(entries@.subrange(0, i as int), fv.subrange(0, i as int)),
        decreases entries@.len() - i,
    {
        let e = entries[i];
        let ca = match e.marker {
            Some(HostMarker::CertAuthority) => true,
            _ => false,
        };
        let ghost es = entries@.subrange(0, i + 1);
        let ghost fs = fv.subrange(0, i + 1);
        assert(es.drop_last() =~= entries@.subrange(0, i as int));
        assert(fs.drop_last() =~= fv.subrange(0, i as int));
        assert(es.last() == e);
        assert(fs.last() == fingerprints@[i as int]@);
        if e.covers_host && !ca && !contains_string(&r, &fingerprints[i]) {
            r.push(fingerprints[i].clone());
            assert(r@.map_values(|s: String| s@) =~= saved_list(es, fs));
        } else {
            assert(r@.map_values(|s: String| s@) =~= saved_list(es, fs));
        }
        i += 1;
    }
    assert(entries@.subrange(0, entries@.len() as int) =~= entries@);
    assert(fv.subrange(0, fv.len() as int) =~= fv);
    r
}

/// The `known_hosts` line that records a server key: the server's first name, a
/// space, the key in OpenSSH form and a line feed.
pub open spec fn known_host_line_text(host: Seq<char>, port: u16, public_key: Seq<char>) -> Seq<char> {
    host_names_spec(host, port)[0] + " "@ + public_key + "\n"@
}

/// Builds the `known_hosts` line for a server key given in OpenSSH form.
pub fn known_host_line(host: &str, port: u16, public_key: &str) -> (r: String)
    ensures
        r@ == known_host_line_text(host@, port, public_key@),
{
    let names = known_host_names(host, port);
    proof {
        reveal_strlit(" ");
        reveal_strlit("\n");
    }
    assert(names@.map_values(|s: String| s@).len() == names@.len());
    assert(names@.len() == 1);
    let mut s = names[0].clone();
    push_str(&mut s, " ");
    push_str(&mut s, public_key);
    push_str(&mut s, "\n");
    s
}

/// The host part of an entry as a value.
pub enum PatternsView {
    Patterns(Seq<Seq<char>>),
    Hashed(Seq<u8>, Seq<u8>),
}

impl View for HostPatterns {
    type V = PatternsView;

    open spec fn view(&self) -> PatternsView {
        match self {
            HostPatterns::Patterns(ps) => PatternsView::Patterns(ps@.map_values(|s: String| s@)),
            HostPatterns::HashedName { salt, hash } => PatternsView::Hashed(salt@, hash@),
        }
    }
}

/// `patterns_cover` read on the value of the patterns.
pub open spec fn covers(p: PatternsView, names: Seq<String>) -> bool {
    match p {
        PatternsView::Hashed(salt, hash) => exists|i: int|
            0 <= i < names.len() && hmac_sha1(salt, bytes_of(#[trigger] names[i]@)) == hash,
        PatternsView::Patterns(ps) => {
            &&& exists|k: int|
                0 <= k < ps.len() && !split_negation(bytes_of(#[trigger] ps[k])).0
                    && some_name_matches(split_negation(bytes_of(ps[k])).1, names)
            &&& forall|k: int|
                0 <= k < ps.len() && split_negation(bytes_of(#[trigger] ps[k])).0
                    ==> !some_name_matches(split_negation(bytes_of(ps[k])).1, names)
        },
    }
}

#[verifier::spinoff_prover]
proof fn lemma_covers_view(patterns: HostPatterns, names: Seq<String>)
    ensures
        patterns_cover(patterns, names) == covers(patterns@, names),
{
    if let HostPatterns::Patterns(ps) = patterns {
        let pv = ps@.map_values(|s: String| s@);
        assert(patterns@ == PatternsView::Patterns(pv));
        assert forall|k: int| 0 <= k < ps@.len() implies #[trigger] pv[k] == ps@[k]@ by {}
        if exists|k: int|
            0 <= k < ps@.len() && !split_negation(bytes_of(#[trigger] ps@[k]@)).0
                && some_name_matches(split_negation(bytes_of(ps@[k]@)).1, names) {
            let k = choose|k: int|
                0 <= k < ps@.len() && !split_negation(bytes_of(#[trigger] ps@[k]@)).0
                    && some_name_matches(split_negation(bytes_of(ps@[k]@)).1, names);
            assert(pv[k] == ps@[k]@);
        }
        if exists|k: int|
            0 <= k < pv.len() && !split_negation(bytes_of(#[trigger] pv[k])).0
                && some_name_matches(split_negation(bytes_of(pv[k])).1, names) {
            let k = choose|k: int|
                0 <= k < pv.len() && !split_negation(bytes_of(#[trigger] pv[k])).0
                    && some_name_matches(split_negation(bytes_of(pv[k])).1, names);
            assert(pv[k] == ps@[k]@);
        }
        if forall|k: int|
            0 <= k < ps@.len() && split_negation(bytes_of(#[trigger] ps@[k]@)).0
                ==> !some_name_matches(split_negation(bytes_of(ps@[k]@)).1, names) {
            assert forall|k: int|
                0 <= k < pv.len() && split_negation(bytes_of(#[trigger] pv[k])).0 implies !some_name_matches(
                    split_negation(bytes_of(pv[k])).1,
                    names,
                ) by {
                assert(pv[k] == ps@[k]@);
            }
        }
        if forall|k: int|
            0 <= k < pv.len() && split_negation(bytes_of(#[trigger] pv[k])).0
                ==> !some_name_matches(split_negation(bytes_of(pv[k])).1, names) {
            assert forall|k: int|
                0 <= k < ps@.len() && split_negation(bytes_of(#[trigger] ps@[k]@)).0 implies !some_name_matches(
                    split_negation(bytes_of(ps@[k]@)).1,
                    names,
                ) by {
                assert(pv[k] == ps@[k]@);
            }
        }
    }
}

/// An entry of a `known_hosts` text as its parser reads it: the marker, the host
/// patterns, the key in OpenSSH form (where it encodes) and the key's SHA-256
/// fingerprint.
#[derive(Debug)]
pub struct LineEntry {
    pub marker: Option<HostMarker>,
    pub patterns: HostPatterns,
    pub key: Option<String>,
    pub fingerprint: String,
}

/// An entry as a value: marker, patterns, key text, fingerprint.
pub type EntryView = (Option<HostMarker>, PatternsView, Option<Seq<char>>, Seq<char>);

/// What `ssh_key::known_hosts::KnownHosts` reads from a text: for each entry line,
/// its marker, host patterns, key text and fingerprint, or `None` where the line does
/// not parse.
pub uninterp spec fn known_hosts_entries(text: Seq<char>) -> Seq<Option<EntryView>>;

/// An entry read from a text, as a value.
pub open spec fn entry_view(e: Option<LineEntry>) -> Option<EntryView> {
    match e {
        Some(x) => Some((x.marker, x.patterns@, crate::ssh_config::opt_view(x.key), x.fingerprint@)),
        None => None,
    }
}

/// Reads the entries of a `known_hosts` text with `ssh_key::known_hosts::KnownHosts`,
/// keeping of each the marker, the host patterns, the key as `PublicKey::to_openssh`
/// writes it (`None` where that fails) and `PublicKey::fingerprint` with SHA-256; an
/// entry that does not parse is `None`. The result is a function of the text alone.
#[verifier::external_body]
fn parse_known_hosts(text: &str) -> (r: Vec<Option<LineEntry>>)
    ensures
        r@.map_values(|e: Option<LineEntry>| entry_view(e)) == known_hosts_entries(text@),
{
    KnownHosts::new(text).map(|e| e.ok().map(|e| LineEntry {
        marker: e.marker().map(|m| match m { Marker::CertAuthority => HostMarker::CertAuthority, Marker::Revoked => HostMarker::Revoked }),
        patterns: match e.host_patterns() {
            SshPatterns::Patterns(ps) => HostPatterns::Patterns(ps.clone()),
            SshPatterns::HashedName { salt, hash } => HostPatterns::HashedName { salt: salt.clone(), hash: *hash },
        },
        key: e.public_key().to_openssh().ok(),
        fingerprint: e.public_key().fingerprint(HashAlg::Sha256).to_string(),
    })).collect()
}

/// A line is removed when one of its entries speaks for the server: it parses, is no
/// CA key, and its patterns cover one of the server's names.
pub open spec fn line_removed(line: Seq<char>, names: Seq<String>) -> bool {
    exists|i: int|
        0 <= i < known_hosts_entries(line).len() && match #[trigger] known_hosts_entries(line)[i] {
            Some((marker, patterns, _, _)) => marker != Some(HostMarker::CertAuthority) && covers(patterns, names),
            None => false,
        }
}

/// The lines of a text as `str::lines` gives them: split after each line feed, with
/// the line feed and a carriage return before it removed; no empty last line.
pub open spec fn text_lines(s: Seq<char>) -> Seq<Seq<char>>
    decreases s.len(),
{
    match crate::ssh_config::index_of(s, '\n') {
        Some(i) => {
            proof {
                crate::ssh_config::lemma_index_of_bounds(s, '\n');
            }
            let line = s.subrange(0, i as int);
            let line = if line.len() > 0 && line.last() == '\r' {
                line.drop_last()
            } else {
                line
            };
            seq![line] + text_lines(s.subrange(i + 1 as int, s.len() as int))
        },
        None => if s.len() == 0 {
            Seq::empty()
        } else {
            seq![s]
        },
    }
}

/// Texts joined with line feeds.
pub open spec fn join_lines(lines: Seq<Seq<char>>) -> Seq<char>
    decreases lines.len(),
{
    if lines.len() == 0 {
        Seq::empty()
    } else if lines.len() == 1 {
        lines[0]
    } else {
        join_lines(lines.drop_last()) + seq!['\n'] + lines.last()
    }
}

/// `known_hosts` content without the lines that hold a key for a server known by
/// `names`, CA lines kept; a final line feed stays when anything is left.
pub open spec fn without_host_entries(content: Seq<char>, names: Seq<String>) -> Seq<char> {
    let kept = text_lines(content).filter(|l: Seq<char>| !line_removed(l, names));
    let joined = join_lines(kept);
    if content.len() > 0 && content.last() == '\n' && joined.len() > 0 {
        joined.push('\n')
    } else {
        joined
    }
}

fn copy_range(v: &Vec<char>, lo: usize, hi: usize) -> (r: String)
    requires
        lo <= hi <= v@.len(),
    ensures
        r@ == v@.subrange(lo as int, hi as int),
{
    crate::text::string_from(v, lo, hi)
}

/// The lines of a text, as `str::lines` splits it.
pub fn split_lines(s: &str) -> (r: Vec<String>)
    ensures
        r@.map_values(|l: String| l@) == text_lines(s@),
{
    let v = crate::text::chars_of(s);
    let mut r: Vec<String> = Vec::new();
    let mut lo: usize = 0;
    assert(v@.subrange(0, v@.len() as int) =~= v@);
    while lo < v.len()
        invariant
            lo <= v@.len(),
            v@ == s@,
            r@.map_values(|l: String| l@) + text_lines(v@.subrange(lo as int, v@.len() as int)) == text_lines(s@),
        decreases v@.len() - lo,
    {
        let ghost rest = v@.subrange(lo as int, v@.len() as int);
        let mut hi = lo;
        while hi < v.len() && v[hi] != '\n'
            invariant
                lo <= hi <= v@.len(),
                forall|j: int| lo <= j < hi ==> v@[j] != '\n',
            decreases v@.len() - hi,
        {
            hi += 1;
        }
        proof {
            crate::ssh_config::lemma_index_of_exact(rest, '\n', hi - lo);
        }
        let ghost before = r@.map_values(|l: String| l@);
        if hi == v.len() {
            r.push(copy_range(&v, lo, hi));
            assert(r@.map_values(|l: String| l@) =~= before.push(rest));
            assert(text_lines(rest) =~= seq![rest]);
            assert(v@.subrange(hi as int, v@.len() as int) =~= Seq::<char>::empty());
            assert(text_lines(v@.subrange(hi as int, v@.len() as int)) =~= Seq::<Seq<char>>::empty());
            lo = hi;
        } else {
            let end = if hi > lo && v[hi - 1] == '\r' {
                hi - 1
            } else {
                hi
            };
            r.push(copy_range(&v, lo, end));
            let ghost line = rest.subrange(0, hi - lo);
            assert(line.len() > 0 && line.last() == '\r' ==> v@.subrange(lo as int, end as int) =~= line.drop_last());
            assert(!(line.len() > 0 && line.last() == '\r') ==> v@.subrange(lo as int, end as int) =~= line);
            assert(rest.subrange(hi - lo + 1, rest.len() as int) =~= v@.subrange(hi + 1, v@.len() as int));
            assert(r@.map_values(|l: String| l@) =~= before.push(
                if line.len() > 0 && line.last() == '\r' { line.drop_last() } else { line },
            ));
            lo = hi + 1;
        }
    }
    assert(v@.subrange(lo as int, v@.len() as int) =~= Seq::<char>::empty());
    assert(r@.map_values(|l: String| l@) =~= text_lines(s@));
    r
}

fn line_is_removed(line: &str, names: &Vec<String>) -> (r: bool)
    ensures
        r == line_removed(line@, names@),
{
    let entries = parse_known_hosts(line);
    let ghost ev = entries@.map_values(|e: Option<LineEntry>| entry_view(e));
    let mut i: usize = 0;
    while i < entries.len()
        invariant
            i <= entries@.len(),
            ev == entries@.map_values(|e: Option<LineEntry>| entry_view(e)),
            ev == known_hosts_entries(line@),
            forall|j: int| 0 <= j < i ==> match #[trigger] known_hosts_entries(line@)[j] {
                Some((marker, patterns, _, _)) => !(marker != Some(HostMarker::CertAuthority) && covers(patterns, names@)),
                None => true,
            },
        decreases entries@.len() - i,
    {
        assert(ev[i as int] == entry_view(entries@[i as int]));
        match &entries[i] {
            Some(e) => {
                let ca = match e.marker {
                    Some(HostMarker::CertAuthority) => true,
                    _ => false,
                };
                if !ca {
                    let hit = known_host_patterns_match(&e.patterns, names);
                    proof {
                        lemma_covers_view(e.patterns, names@);
                    }
                    if hit {
                        assert(known_hosts_entries(line@)[i as int] == entry_view(entries@[i as int]));
                        return true;
                    }
                }
            },
            None => {},
        }
        i += 1;
    }
    false
}

/// Removes the lines that hold a key for the server at `host` and `port` from
/// `known_hosts` content; lines with CA keys and lines of other servers stay.
pub fn remove_known_host_entries(content: &str, host: &str, port: u16) -> (r: String)
    ensures
        exists|names: Seq<String>|
            names.map_values(|s: String| s@) == host_names_spec(host@, port) && r@ == without_host_entries(
                content@,
                names,
            ),
{
    let names = known_host_names(host, port);
    let lines = split_lines(content);
    let ghost all = lines@.map_values(|l: String| l@);
    let ghost keep = |l: Seq<char>| !line_removed(l, names@);
    let mut kept: Vec<String> = Vec::new();
    let mut i: usize = 0;
    assert(all.subrange(0, 0) =~= Seq::<Seq<char>>::empty());
    while i < lines.len()
        invariant
            i <= lines@.len(),
            all == lines@.map_values(|l: String| l@),
            keep == (|l: Seq<char>| !line_removed(l, names@)),
            kept@.map_values(|l: String| l@) == all.subrange(0, i as int).filter(keep),
        decreases lines@.len() - i,
    {
        let ghost lv = lines@[i as int]@;
        assert(all.subrange(0, i + 1) =~= all.subrange(0, i as int).push(lv));
        proof {
            all.subrange(0, i as int).lemma_filter_push(lv, keep);
        }
        if !line_is_removed(lines[i].as_str(), &names) {
            kept.push(lines[i].clone());
        }
        assert(kept@.map_values(|l: String| l@) =~= all.subrange(0, i + 1).filter(keep));
        i += 1;
    }
    assert(all.subrange(0, all.len() as int) =~= all);
    let ghost kv = kept@.map_values(|l: String| l@);
    let mut result = String::new();
    let mut j: usize = 0;
    assert(kv.subrange(0, 0) =~= Seq::<Seq<char>>::empty());
    while j < kept.len()
        invariant
            j <= kept@.len(),
            kv == kept@.map_values(|l: String| l@),
            result@ == join_lines(kv.subrange(0, j as int)),
        decreases kept@.len() - j,
    {
        if j > 0 {
            push_char(&mut result, '\n');
        }
        push_str(&mut result, kept[j].as_str());
        let ghost p = kv.subrange(0, j + 1);
        assert(p.drop_last() =~= kv.subrange(0, j as int));
        assert(p.last() == kept@[j as int]@);
        if j == 0 {
            assert(result@ =~= join_lines(p));
        }
        j += 1;
    }
    assert(kv.subrange(0, kv.len() as int) =~= kv);
    let v = crate::text::chars_of(content);
    let r = crate::text::chars_of(result.as_str());
    if v.len() > 0 && v[v.len() - 1] == '\n' && r.len() > 0 {
        push_char(&mut result, '\n');
    }
    assert(result@ == without_host_entries(content@, names@));
    result
}


/// The facts of the entries that parse, in order, for a server known by `names` and,
/// where given, a server key in OpenSSH form.
pub open spec fn parsed_facts(
    entries: Seq<Option<EntryView>>,
    names: Seq<String>,
    key: Option<Seq<char>>,
) -> Seq<EntryFacts>
    decreases entries.len(),
{
    if entries.len() == 0 {
        Seq::empty()
    } else {
        let prev = parsed_facts(entries.drop_last(), names, key);
        match entries.last() {
            Some((marker, patterns, entry_key, _)) => prev.push(
                EntryFacts {
                    marker,
                    covers_host: covers(patterns, names),
                    same_key: key is Some && entry_key == key,
                },
            ),
            None => prev,
        }
    }
}

/// The fingerprints of the entries that parse, in order.
pub open spec fn parsed_fingerprints(entries: Seq<Option<EntryView>>) -> Seq<Seq<char>>
    decreases entries.len(),
{
    if entries.len() == 0 {
        Seq::empty()
    } else {
        let prev = parsed_fingerprints(entries.drop_last());
        match entries.last() {
            Some((_, _, _, fingerprint)) => prev.push(fingerprint),
            None => prev,
        }
    }
}

/// A key given in OpenSSH form, or none, as a value.
pub open spec fn key_view(key: Option<&str>) -> Option<Seq<char>> {
    match key {
        Some(k) => Some(k@),
        None => None,
    }
}

proof fn lemma_parsed_lengths(entries: Seq<Option<EntryView>>, names: Seq<String>, key: Option<Seq<char>>)
    ensures
        parsed_facts(entries, names, key).len() == parsed_fingerprints(entries).len(),
    decreases entries.len(),
{
    if entries.len() > 0 {
        lemma_parsed_lengths(entries.drop_last(), names, key);
    }
}

fn key_matches(entry_key: &Option<String>, key: &Option<String>) -> (r: bool)
    ensures
        r == (key is Some && crate::ssh_config::opt_view(*entry_key) == crate::ssh_config::opt_view(*key)),
{
    match (entry_key, key) {
        (Some(a), Some(b)) => *a == *b,
        _ => false,
    }
}

/// Reads a `known_hosts` text into the facts of its parsed entries for a server and,
/// where given, its key, with the fingerprint of each entry's key.
fn entry_facts(content: &str, names: &Vec<String>, key: Option<&str>) -> (r: (Vec<EntryFacts>, Vec<String>))
    ensures
        r.0@ == parsed_facts(known_hosts_entries(content@), names@, key_view(key)),
        r.1@.map_values(|s: String| s@) == parsed_fingerprints(known_hosts_entries(content@)),
        r.0@.len() == r.1@.len(),
{
    let key_text: Option<String> = match key {
        Some(k) => Some(owned(k)),
        None => None,
    };
    assert(crate::ssh_config::opt_view(key_text) == key_view(key));
    let entries = parse_known_hosts(content);
    let ghost ev = entries@.map_values(|e: Option<LineEntry>| entry_view(e));
    let mut facts: Vec<EntryFacts> = Vec::new();
    let mut fingerprints: Vec<String> = Vec::new();
    let mut i: usize = 0;
    assert(ev.subrange(0, 0) =~= Seq::<Option<EntryView>>::empty());
    while i < entries.len()
        invariant
            i <= entries@.len(),
            ev == entries@.map_values(|e: Option<LineEntry>| entry_view(e)),
            ev == known_hosts_entries(content@),
            crate::ssh_config::opt_view(key_text) == key_view(key),
            facts@ == parsed_facts(ev.subrange(0, i as int), names@, key_view(key)),
            fingerprints@.map_values(|s: String| s@) == parsed_fingerprints(ev.subrange(0, i as int)),
        decreases entries@.len() - i,
    {
        let ghost sub = ev.subrange(0, i + 1);
        assert(sub.drop_last() =~= ev.subrange(0, i as int));
        assert(sub.last() == entry_view(entries@[i as int]));
        match &entries[i] {
            Some(e) => {
                let covers_host = known_host_patterns_match(&e.patterns, names);
                proof {
                    lemma_covers_view(e.patterns, names@);
                }
                let same_key = key_matches(&e.key, &key_text);
                facts.push(EntryFacts { marker: e.marker, covers_host, same_key });
                fingerprints.push(e.fingerprint.clone());
            },
            None => {},
        }
        assert(facts@ =~= parsed_facts(sub, names@, key_view(key)));
        assert(fingerprints@.map_values(|s: String| s@) =~= parsed_fingerprints(sub));
        i += 1;
    }
    assert(ev.subrange(0, ev.len() as int) =~= ev);
    proof {
        lemma_parsed_lengths(ev, names@, key_view(key));
    }
    (facts, fingerprints)
}

/// How a server key, given in OpenSSH form, stands in a `known_hosts` text for the
/// server at `host` and `port`; with no key given, no entry holds it.
pub fn known_host_key_status(content: &str, host: &str, port: u16, key: Option<&str>) -> (r: HostKeyStatus)
    ensures
        exists|names: Seq<String>|
            names.map_values(|s: String| s@) == host_names_spec(host@, port) && r == key_status(
                parsed_facts(known_hosts_entries(content@), names, key_view(key)),
            ),
{
    let names = known_host_names(host, port);
    let (facts, _) = entry_facts(content, &names, key);
    host_key_status(&facts)
}

/// The fingerprints a `known_hosts` text records for the server at `host` and `port`:
/// those of the entries that speak for it, each once, in the order they first occur.
pub fn known_host_fingerprints_in(content: &str, host: &str, port: u16) -> (r: Vec<String>)
    ensures
        exists|names: Seq<String>|
            names.map_values(|s: String| s@) == host_names_spec(host@, port)
                && r@.map_values(|s: String| s@) == saved_list(
                parsed_facts(known_hosts_entries(content@), names, None),
                parsed_fingerprints(known_hosts_entries(content@)),
            ),
{
    let names = known_host_names(host, port);
    let (facts, fingerprints) = entry_facts(content, &names, None);
    saved_fingerprints(&facts, &fingerprints)
}


/// A line holds no line feed.
pub open spec fn no_line_feed(l: Seq<char>) -> bool {
    forall|j: int| 0 <= j < l.len() ==> l[j] != '\n'
}

/// A line ends in a carriage return.
pub open spec fn ends_in_cr(l: Seq<char>) -> bool {
    l.len() > 0 && l.last() == '\r'
}

/// A line as a join can hold it and a split gives it back.
spec fn plain_line(l: Seq<char>) -> bool {
    no_line_feed(l) && !ends_in_cr(l)
}

proof fn lemma_lines_hold_no_line_feed(s: Seq<char>)
    ensures
        forall|i: int| 0 <= i < text_lines(s).len() ==> no_line_feed(#[trigger] text_lines(s)[i]),
    decreases s.len(),
{
    crate::ssh_config::lemma_index_of_bounds(s, '\n');
    match crate::ssh_config::index_of(s, '\n') {
        Some(k) => {
            let rest = s.subrange(k + 1 as int, s.len() as int);
            lemma_lines_hold_no_line_feed(rest);
            let line = s.subrange(0, k as int);
            let first = if line.len() > 0 && line.last() == '\r' { line.drop_last() } else { line };
            assert(no_line_feed(first));
            assert forall|i: int| 0 <= i < text_lines(s).len() implies no_line_feed(#[trigger] text_lines(s)[i]) by {
                if i > 0 {
                    assert(text_lines(s)[i] == text_lines(rest)[i - 1]);
                }
            }
        },
        None => {},
    }
}

proof fn lemma_split_after_line(l: Seq<char>, x: Seq<char>)
    requires
        plain_line(l),
    ensures
        text_lines(l + seq!['\n'] + x) == seq![l] + text_lines(x),
{
    let s = l + seq!['\n'] + x;
    crate::ssh_config::lemma_index_of_bounds(s, '\n');
    assert(s[l.len() as int] == '\n');
    assert forall|j: int| 0 <= j < l.len() implies s[j] != '\n' by {
        assert(s[j] == l[j]);
    }
    assert(crate::ssh_config::index_of(s, '\n') == Some(l.len()));
    assert(s.subrange(0, l.len() as int) =~= l);
    assert(s.subrange(l.len() + 1 as int, s.len() as int) =~= x);
}

proof fn lemma_split_single(l: Seq<char>)
    requires
        no_line_feed(l),
    ensures
        text_lines(l) == (if l.len() == 0 { Seq::<Seq<char>>::empty() } else { seq![l] }),
{
    crate::ssh_config::lemma_index_of_bounds(l, '\n');
}

proof fn lemma_join_first(ls: Seq<Seq<char>>)
    requires
        ls.len() >= 2,
    ensures
        join_lines(ls) == ls[0] + seq!['\n'] + join_lines(ls.drop_first()),
    decreases ls.len(),
{
    if ls.len() == 2 {
        assert(ls.drop_last() =~= seq![ls[0]]);
        assert(ls.drop_first() =~= seq![ls[1]]);
        assert(join_lines(ls.drop_first()) == ls[1]);
        assert(join_lines(ls.drop_last()) == ls[0]);
        assert(join_lines(ls) =~= ls[0] + seq!['\n'] + ls[1]);
    } else {
        let front = ls.drop_last();
        lemma_join_first(front);
        assert(front.drop_first() =~= ls.drop_first().drop_last());
        assert(ls.drop_first().last() == ls.last());
        assert(join_lines(ls.drop_first()) == join_lines(ls.drop_first().drop_last()) + seq!['\n'] + ls.last());
        assert(join_lines(ls) =~= ls[0] + seq!['\n'] + join_lines(ls.drop_first()));
    }
}

proof fn lemma_split_joined_with_feed(ls: Seq<Seq<char>>)
    requires
        ls.len() > 0,
        forall|i: int| 0 <= i < ls.len() ==> plain_line(#[trigger] ls[i]),
    ensures
        text_lines(join_lines(ls) + seq!['\n']) == ls,
    decreases ls.len(),
{
    if ls.len() == 1 {
        lemma_split_after_line(ls[0], Seq::empty());
        assert(ls[0] + seq!['\n'] + Seq::<char>::empty() =~= join_lines(ls) + seq!['\n']);
        assert(text_lines(Seq::<char>::empty()) =~= Seq::<Seq<char>>::empty());
        assert(seq![ls[0]] =~= ls);
    } else {
        let rest = ls.drop_first();
        lemma_join_first(ls);
        lemma_split_joined_with_feed(rest);
        lemma_split_after_line(ls[0], join_lines(rest) + seq!['\n']);
        assert(join_lines(ls) + seq!['\n'] =~= ls[0] + seq!['\n'] + (join_lines(rest) + seq!['\n']));
        assert(seq![ls[0]] + rest =~= ls);
    }
}

proof fn lemma_split_joined(ls: Seq<Seq<char>>)
    requires
        ls.len() > 0,
        forall|i: int| 0 <= i < ls.len() - 1 ==> plain_line(#[trigger] ls[i]),
        no_line_feed(ls.last()),
    ensures
        text_lines(join_lines(ls)) == (if ls.last().len() == 0 { ls.drop_last() } else { ls }),
    decreases ls.len(),
{
    if ls.len() == 1 {
        lemma_split_single(ls[0]);
        assert(ls.drop_last() =~= Seq::<Seq<char>>::empty());
        assert(seq![ls[0]] =~= ls);
    } else {
        let rest = ls.drop_first();
        lemma_join_first(ls);
        assert forall|i: int| 0 <= i < rest.len() - 1 implies plain_line(#[trigger] rest[i]) by {
            assert(rest[i] == ls[i + 1]);
        }
        assert(rest.last() == ls.last());
        lemma_split_joined(rest);
        assert(plain_line(ls[0]));
        lemma_split_after_line(ls[0], join_lines(rest));
        assert(rest.last() == ls.last());
        assert(seq![ls[0]] + rest =~= ls);
        assert(seq![ls[0]] + rest.drop_last() =~= ls.drop_last());
    }
}

proof fn lemma_joined_end(ls: Seq<Seq<char>>)
    requires
        ls.len() > 0,
    ensures
        ls.len() >= 2 ==> join_lines(ls).len() > 0,
        ls.len() == 1 ==> join_lines(ls) == ls[0],
        ls.last().len() > 0 ==> join_lines(ls).len() > 0 && join_lines(ls).last() == ls.last().last(),
        ls.len() >= 2 && ls.last().len() == 0 ==> join_lines(ls) == join_lines(ls.drop_last()) + seq!['\n'],
{
    if ls.len() >= 2 {
        let j = join_lines(ls.drop_last()) + seq!['\n'] + ls.last();
        assert(join_lines(ls) == j);
        if ls.last().len() == 0 {
            assert(j =~= join_lines(ls.drop_last()) + seq!['\n']);
        } else {
            assert(j.last() == ls.last().last());
        }
    }
}

proof fn lemma_filter_keeps_all(s: Seq<Seq<char>>, pred: spec_fn(Seq<char>) -> bool)
    requires
        forall|i: int| 0 <= i < s.len() ==> pred(#[trigger] s[i]),
    ensures
        s.filter(pred) == s,
    decreases s.len(),
{
    reveal(Seq::filter);
    if s.len() > 0 {
        lemma_filter_keeps_all(s.drop_last(), pred);
        assert(s.drop_last().push(s.last()) =~= s);
    }
}

proof fn lemma_filter_keeps_property(
    s: Seq<Seq<char>>,
    pred: spec_fn(Seq<char>) -> bool,
    prop: spec_fn(Seq<char>) -> bool,
)
    requires
        forall|i: int| 0 <= i < s.len() ==> prop(#[trigger] s[i]),
    ensures
        forall|i: int| 0 <= i < s.filter(pred).len() ==> prop(#[trigger] s.filter(pred)[i]),
        forall|i: int| 0 <= i < s.filter(pred).len() ==> pred(#[trigger] s.filter(pred)[i]),
    decreases s.len(),
{
    reveal(Seq::filter);
    if s.len() > 0 {
        lemma_filter_keeps_property(s.drop_last(), pred, prop);
        let f = s.drop_last().filter(pred);
        assert forall|i: int| 0 <= i < s.filter(pred).len() implies prop(#[trigger] s.filter(pred)[i]) && pred(s.filter(pred)[i]) by {
            if i < f.len() {
                assert(s.filter(pred)[i] == f[i]);
            } else {
                assert(s.filter(pred)[i] == s.last());
            }
        }
    }
}

proof fn lemma_covers_by_views(p: PatternsView, names: Seq<String>, again: Seq<String>)
    requires
        again.map_values(|s: String| s@) == names.map_values(|s: String| s@),
    ensures
        covers(p, names) == covers(p, again),
{
    let nv = names.map_values(|s: String| s@);
    assert(names.len() == nv.len() && again.len() == nv.len());
    assert forall|i: int| 0 <= i < names.len() implies #[trigger] names[i]@ == again[i]@ by {
        assert(nv[i] == names[i]@);
        assert(again.map_values(|s: String| s@)[i] == again[i]@);
    }
    assert forall|pat: Seq<u8>| #[trigger] some_name_matches(pat, names) == some_name_matches(pat, again) by {
        if some_name_matches(pat, names) {
            let i = choose|i: int|
                0 <= i < names.len() && glob(lower_bytes(pat), lower_bytes(bytes_of(#[trigger] names[i]@)));
            assert(names[i]@ == again[i]@);
        }
        if some_name_matches(pat, again) {
            let i = choose|i: int|
                0 <= i < again.len() && glob(lower_bytes(pat), lower_bytes(bytes_of(#[trigger] again[i]@)));
            assert(names[i]@ == again[i]@);
        }
    }
    match p {
        PatternsView::Hashed(salt, hash) => {
            if covers(p, names) {
                let i = choose|i: int| 0 <= i < names.len() && hmac_sha1(salt, bytes_of(#[trigger] names[i]@)) == hash;
                assert(names[i]@ == again[i]@);
            }
            if covers(p, again) {
                let i = choose|i: int| 0 <= i < again.len() && hmac_sha1(salt, bytes_of(#[trigger] again[i]@)) == hash;
                assert(names[i]@ == again[i]@);
            }
        },
        PatternsView::Patterns(ps) => {},
    }
}

proof fn lemma_removed_by_views(line: Seq<char>, names: Seq<String>, again: Seq<String>)
    requires
        again.map_values(|s: String| s@) == names.map_values(|s: String| s@),
    ensures
        line_removed(line, names) == line_removed(line, again),
{
    let es = known_hosts_entries(line);
    assert forall|i: int| 0 <= i < es.len() implies match #[trigger] es[i] {
        Some((marker, patterns, _, _)) => covers(patterns, names) == covers(patterns, again),
        None => true,
    } by {
        if let Some((marker, patterns, _, _)) = es[i] {
            lemma_covers_by_views(patterns, names, again);
        }
    }
}

/// The lines of `content` that removing the entries of a server known by `names`
/// keeps.
pub open spec fn kept_lines(content: Seq<char>, names: Seq<String>) -> Seq<Seq<char>> {
    text_lines(content).filter(|l: Seq<char>| !line_removed(l, names))
}

/// The text ends in a line feed.
pub open spec fn ends_in_feed(content: Seq<char>) -> bool {
    content.len() > 0 && content.last() == '\n'
}

proof fn lemma_second_pass(kept: Seq<Seq<char>>, again: Seq<String>, feed: bool)
    requires
        forall|i: int| 0 <= i < kept.len() ==> no_line_feed(#[trigger] kept[i]) && !line_removed(kept[i], again),
        forall|i: int| 0 <= i < kept.len() && ends_in_cr(#[trigger] kept[i]) ==> i == kept.len() - 1 && !feed,
        !(kept == seq![Seq::<char>::empty(), Seq::<char>::empty()] && !feed),
    ensures
        ({
            let joined = join_lines(kept);
            let r = if feed && joined.len() > 0 { joined.push('\n') } else { joined };
            without_host_entries(r, again) == r
        }),
{
    let keep_again = |l: Seq<char>| !line_removed(l, again);
    let joined = join_lines(kept);
    let r = if feed && joined.len() > 0 { joined.push('\n') } else { joined };
    assert forall|i: int| 0 <= i < kept.len() implies keep_again(#[trigger] kept[i]) by {}
    assert forall|i: int| 0 <= i < kept.len() - 1 implies plain_line(#[trigger] kept[i]) by {}
    if kept.len() == 0 || (kept.len() == 1 && kept[0].len() == 0) {
        assert(joined.len() == 0);
        assert(text_lines(r) =~= Seq::<Seq<char>>::empty());
        reveal(Seq::filter);
        assert(text_lines(r).filter(keep_again) =~= Seq::<Seq<char>>::empty());
    } else {
        lemma_joined_end(kept);
        assert(joined.len() > 0);
        if feed {
            assert forall|i: int| 0 <= i < kept.len() implies plain_line(#[trigger] kept[i]) by {}
            assert(joined.push('\n') =~= joined + seq!['\n']);
            lemma_split_joined_with_feed(kept);
            lemma_filter_keeps_all(kept, keep_again);
        } else if kept.last().len() > 0 {
            assert(no_line_feed(kept[kept.len() - 1]));
            lemma_split_joined(kept);
            lemma_filter_keeps_all(kept, keep_again);
            assert(kept.last()[kept.last().len() - 1] != '\n');
        } else {
            let front = kept.drop_last();
            assert(no_line_feed(kept[kept.len() - 1]));
            lemma_split_joined(kept);
            assert(text_lines(r) == front);
            assert forall|i: int| 0 <= i < front.len() implies keep_again(#[trigger] front[i]) by {
                assert(front[i] == kept[i]);
            }
            lemma_filter_keeps_all(front, keep_again);
            assert(r == join_lines(front) + seq!['\n']);
            if front.len() == 1 && front[0].len() == 0 {
                assert(kept[0] == front[0]);
                assert(kept[0] =~= Seq::<char>::empty());
                assert(kept[1] =~= Seq::<char>::empty());
                assert(kept =~= seq![Seq::<char>::empty(), Seq::<char>::empty()]);
            }
            lemma_joined_end(front);
            assert(join_lines(front).len() > 0);
            assert(r.len() > 0 && r.last() == '\n');
            assert((join_lines(front) + seq!['\n']) =~= join_lines(front).push('\n'));
        }
    }
}

/// Removing the entries of a server from `known_hosts` content a second time, under
/// the same names, changes nothing. It fails only where a line left by the first
/// removal ends in a carriage return that a line feed follows in the result (the
/// second pass reads that return as part of the line break), or where the lines left
/// are two blank ones and the content has no final line feed (the second pass then
/// drops one of them); those inputs are left out.
pub proof fn lemma_removing_entries_twice(content: Seq<char>, names: Seq<String>, again: Seq<String>)
    requires
        again.map_values(|s: String| s@) == names.map_values(|s: String| s@),
        forall|i: int|
            0 <= i < kept_lines(content, names).len() && ends_in_cr(#[trigger] kept_lines(content, names)[i])
                ==> i == kept_lines(content, names).len() - 1 && !ends_in_feed(content),
        !(kept_lines(content, names) == seq![Seq::<char>::empty(), Seq::<char>::empty()] && !ends_in_feed(content)),
    ensures
        without_host_entries(without_host_entries(content, names), again) == without_host_entries(content, names),
{
    let keep = |l: Seq<char>| !line_removed(l, names);
    let lines = text_lines(content);
    let kept = lines.filter(keep);
    assert(kept == kept_lines(content, names));
    lemma_lines_hold_no_line_feed(content);
    let clean = |l: Seq<char>| no_line_feed(l);
    assert forall|i: int| 0 <= i < lines.len() implies clean(#[trigger] lines[i]) by {}
    lemma_filter_keeps_property(lines, keep, clean);
    assert forall|i: int| 0 <= i < kept.len() implies no_line_feed(#[trigger] kept[i]) && !line_removed(kept[i], again) by {
        assert(clean(kept[i]));
        assert(keep(kept[i]));
        lemma_removed_by_views(kept[i], names, again);
    }
    lemma_second_pass(kept, again, ends_in_feed(content));
}


proof fn lemma_encode_concat(a: Seq<char>, b: Seq<char>)
    ensures
        bytes_of(a + b) == bytes_of(a) + bytes_of(b),
    decreases a.len(),
{
    if a.len() == 0 {
        assert(a + b =~= b);
        assert(bytes_of(a) =~= Seq::<u8>::empty());
        assert(bytes_of(a) + bytes_of(b) =~= bytes_of(b));
    } else {
        assert((a + b)[0] == a[0]);
        assert((a + b).drop_first() =~= a.drop_first() + b);
        lemma_encode_concat(a.drop_first(), b);
        assert(bytes_of(a + b) =~= bytes_of(a) + bytes_of(b));
    }
}

proof fn lemma_star_bytes()
    ensures
        lower_bytes(bytes_of("*"@)) == seq![42u8],
{
    reveal_strlit("*");
    let s = "*"@;
    assert(s.len() == 1 && s[0] == '*');
    assert(s.drop_first() =~= Seq::<char>::empty());
    assert(('*' as u32) == 42u32);
    assert((42u32 & 0x7Fu32) as u8 == 42u8) by (bit_vector);
    assert(vstd::utf8::has_width_1_encoding(42u32));
    assert(vstd::utf8::encode_scalar(42u32) =~= seq![42u8]);
    assert(vstd::utf8::encode_utf8(s.drop_first()) =~= Seq::<u8>::empty());
    assert(vstd::utf8::encode_utf8(s) == vstd::utf8::encode_scalar(s[0] as u32) + vstd::utf8::encode_utf8(
        s.drop_first(),
    ));
    assert(bytes_of(s) =~= seq![42u8]);
    assert(lower_bytes(seq![42u8]) =~= seq![42u8]);
}

proof fn lemma_lower_concat(a: Seq<u8>, b: Seq<u8>)
    ensures
        lower_bytes(a + b) == lower_bytes(a) + lower_bytes(b),
{
    assert(lower_bytes(a + b) =~= lower_bytes(a) + lower_bytes(b));
}

proof fn lemma_star_alone(v: Seq<u8>)
    ensures
        glob(seq![42u8], v),
    decreases v.len(),
{
    let p = seq![42u8];
    assert(p.drop_last() =~= Seq::<u8>::empty());
    assert(p.len() == 1 && p.last() == 42u8);
    if v.len() > 0 {
        lemma_star_alone(v.drop_last());
        assert(glob(p, v.drop_last()));
    } else {
        assert(glob(p.drop_last(), v));
    }
}

proof fn lemma_star_then(p: Seq<u8>, u: Seq<u8>)
    ensures
        glob(seq![42u8] + p, u + p),
    decreases p.len(),
{
    let q = seq![42u8] + p;
    let v = u + p;
    if p.len() == 0 {
        assert(q =~= seq![42u8]);
        assert(v =~= u);
        lemma_star_alone(u);
    } else {
        let p1 = p.drop_last();
        lemma_star_then(p1, u);
        assert(q.drop_last() =~= seq![42u8] + p1);
        assert(v.drop_last() =~= u + p1);
        assert(q.last() == p.last());
        assert(v.last() == p.last());
        if p.last() == 42 {
            assert(glob(q, v.drop_last()));
        }
    }
}

/// A `*` in a host pattern matches any run of characters, dots included: whenever a
/// value ends in the text that follows the `*`, the pattern covers it, whatever comes
/// before (so `*.example.com` covers `db.prod.example.com`).
pub proof fn lemma_star_matches_any_run(rest: Seq<char>, prefix: Seq<char>)
    ensures
        wildcard_matches("*"@ + rest, prefix + rest),
{
    lemma_encode_concat("*"@, rest);
    lemma_encode_concat(prefix, rest);
    lemma_star_bytes();
    lemma_lower_concat(bytes_of("*"@), bytes_of(rest));
    lemma_lower_concat(bytes_of(prefix), bytes_of(rest));
    lemma_star_then(lower_bytes(bytes_of(rest)), lower_bytes(bytes_of(prefix)));
}

} // verus!
