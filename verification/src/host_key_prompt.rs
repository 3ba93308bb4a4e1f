//! The message that reports an untrusted, changed or revoked SSH host key, and how
//! the user interface reads it back to ask the user what to do.

use vstd::prelude::*;
use crate::text::{chars_of, decimal, decimal_string, digit_char, owned, push_char, push_str, string_from};

verus! {

/// Why a host key needs the user's decision.
#[derive(Clone, Copy, Debug, PartialEq, Eq, Structural)]
pub enum HostKeyIssue {
    Unknown,
    Changed,
    Revoked,
}

/// The tag that opens the message of each issue.
pub open spec fn issue_tag(issue: HostKeyIssue) -> Seq<char> {
    match issue {
        HostKeyIssue::Unknown => "HOST_KEY_NOT_TRUSTED"@,
        HostKeyIssue::Changed => "HOST_KEY_CHANGED"@,
        HostKeyIssue::Revoked => "HOST_KEY_REVOKED"@,
    }
}

/// `parts` joined with `sep` between neighbours.
pub open spec fn join_with(parts: Seq<Seq<char>>, sep: char) -> Seq<char>
    decreases parts.len(),
{
    if parts.len() == 0 {
        Seq::empty()
    } else if parts.len() == 1 {
        parts[0]
    } else {
        join_with(parts.drop_last(), sep) + seq![sep] + parts.last()
    }
}

/// `tag|host|port|fingerprint|saved,...`
pub open spec fn host_key_message(
    issue: HostKeyIssue,
    host: Seq<char>,
    port: u16,
    fingerprint: Seq<char>,
    saved: Seq<Seq<char>>,
) -> Seq<char> {
    issue_tag(issue) + "|"@ + host + "|"@ + decimal(port as nat) + "|"@ + fingerprint + "|"@
        + join_with(saved, ',')
}

pub open spec fn views(v: Seq<String>) -> Seq<Seq<char>> {
    v.map_values(|s: String| s@)
}

fn tag_text(issue: HostKeyIssue) -> (r: &'static str)
    ensures
        r@ == issue_tag(issue),
{
    match issue {
        HostKeyIssue::Unknown => "HOST_KEY_NOT_TRUSTED",
        HostKeyIssue::Changed => "HOST_KEY_CHANGED",
        HostKeyIssue::Revoked => "HOST_KEY_REVOKED",
    }
}

/// Builds the message for a host key that needs the user's decision: the issue, the
/// server, the fingerprint it presented and the fingerprints saved for it.
pub fn host_key_error(
    issue: HostKeyIssue,
    host: &str,
    port: u16,
    fingerprint: &str,
    saved: &Vec<String>,
) -> (r: String)
    ensures
        r@ == host_key_message(issue, host@, port, fingerprint@, views(saved@)),
{
    let mut s = owned(tag_text(issue));
    push_str(&mut s, "|");
    push_str(&mut s, host);
    push_str(&mut s, "|");
    let p = decimal_string(port as u64);
    push_str(&mut s, p.as_str());
    push_str(&mut s, "|");
    push_str(&mut s, fingerprint);
    push_str(&mut s, "|");
    let ghost head = s@;
    let mut i: usize = 0;
    while i < saved.len()
        invariant
            i <= saved@.len(),
            s@ == head + join_with(views(saved@).subrange(0, i as int), ','),
        decreases saved@.len() - i,
    {
        let ghost parts = views(saved@).subrange(0, i + 1);
        assert(parts.drop_last() == views(saved@).subrange(0, i as int));
        assert(parts.last() == saved@[i as int]@);
        if i > 0 {
            push_char(&mut s, ',');
        }
        push_str(&mut s, saved[i].as_str());
        i += 1;
    }
    assert(views(saved@).subrange(0, saved@.len() as int) == views(saved@));
    s
}

/// The text before the first `c` and the text after it, if `c` occurs.
pub open spec fn split_once(s: Seq<char>, c: char) -> Option<(Seq<char>, Seq<char>)>
    decreases s.len(),
{
    if s.len() == 0 {
        None
    } else if s[0] == c {
        Some((Seq::empty(), s.drop_first()))
    } else {
        match split_once(s.drop_first(), c) {
            Some(p) => Some((seq![s[0]] + p.0, p.1)),
            None => None,
        }
    }
}

/// The non-empty pieces of `s` between occurrences of `c`.
pub open spec fn nonempty_pieces(s: Seq<char>, c: char) -> Seq<Seq<char>>
    decreases s.len(),
{
    match split_once(s, c) {
        Some(p) => {
            let rest = if p.1.len() < s.len() {
                nonempty_pieces(p.1, c)
            } else {
                Seq::empty()
            };
            if p.0.len() > 0 {
                seq![p.0] + rest
            } else {
                rest
            }
        },
        None => if s.len() > 0 {
            seq![s]
        } else {
            Seq::empty()
        },
    }
}

/// The value of a run of decimal digits.
pub open spec fn digits_value(d: Seq<char>) -> nat
    decreases d.len(),
{
    if d.len() == 0 {
        0
    } else {
        digits_value(d.drop_last()) * 10 + ((d.last() as u32) - ('0' as u32)) as nat
    }
}

pub open spec fn is_digit(c: char) -> bool {
    '0' <= c && c <= '9'
}

/// A run of decimal digits read as a `u16`: at least one digit, nothing else, at
/// most 65535.
pub open spec fn parse_digits(d: Seq<char>) -> Option<u16> {
    if d.len() == 0 || exists|i: int| 0 <= i < d.len() && !is_digit(#[trigger] d[i]) {
        None
    } else if digits_value(d) > 65535 {
        None
    } else {
        Some(digits_value(d) as u16)
    }
}

/// `u16::from_str`: an optional `+`, then digits as `parse_digits` reads them.
pub open spec fn parse_u16(s: Seq<char>) -> Option<u16> {
    parse_digits(
        if s.len() > 0 && s[0] == '+' {
            s.drop_first()
        } else {
            s
        },
    )
}

/// What the user interface reads from a message: the issue, host, port, presented
/// fingerprint and saved fingerprints; `None` for any other message.
pub open spec fn prompt_of(message: Seq<char>) -> Option<(HostKeyIssue, Seq<char>, u16, Seq<char>, Seq<Seq<char>>)> {
    let stripped = if crate::text::starts_with(message, "HOST_KEY_NOT_TRUSTED|"@) {
        Some((HostKeyIssue::Unknown, message.subrange(21, message.len() as int)))
    } else if crate::text::starts_with(message, "HOST_KEY_CHANGED|"@) {
        Some((HostKeyIssue::Changed, message.subrange(17, message.len() as int)))
    } else if crate::text::starts_with(message, "HOST_KEY_REVOKED|"@) {
        Some((HostKeyIssue::Revoked, message.subrange(17, message.len() as int)))
    } else {
        None
    };
    match stripped {
        None => None,
        Some(st) => match split_once(st.1, '|') {
            None => None,
            Some(a) => match split_once(a.1, '|') {
                None => None,
                Some(b) => {
                    let (fingerprint, saved) = match split_once(b.1, '|') {
                        Some(c) => (c.0, c.1),
                        None => (b.1, Seq::empty()),
                    };
                    match parse_u16(b.0) {
                        None => None,
                        Some(port) => if a.0.len() > 0 && fingerprint.len() > 0 {
                            Some((st.0, a.0, port, fingerprint, nonempty_pieces(saved, ',')))
                        } else {
                            None
                        },
                    }
                },
            },
        },
    }
}

proof fn lemma_split_found(s: Seq<char>, c: char, i: int)
    requires
        0 <= i < s.len(),
        s[i] == c,
        forall|j: int| 0 <= j < i ==> s[j] != c,
    ensures
        split_once(s, c) == Some((s.subrange(0, i), s.subrange(i + 1, s.len() as int))),
    decreases i,
{
    if i > 0 {
        let t = s.drop_first();
        assert forall|j: int| 0 <= j < i - 1 implies t[j] != c by {
            assert(t[j] == s[j + 1]);
        }
        lemma_split_found(t, c, i - 1);
        assert(seq![s[0]] + t.subrange(0, i - 1) == s.subrange(0, i));
        assert(t.subrange(i, t.len() as int) == s.subrange(i + 1, s.len() as int));
    } else {
        assert(s.subrange(0, 0) == Seq::<char>::empty());
        assert(s.subrange(1, s.len() as int) == s.drop_first());
    }
}

proof fn lemma_split_absent(s: Seq<char>, c: char)
    requires
        forall|j: int| 0 <= j < s.len() ==> s[j] != c,
    ensures
        split_once(s, c) is None,
    decreases s.len(),
{
    if s.len() > 0 {
        let t = s.drop_first();
        assert forall|j: int| 0 <= j < t.len() implies t[j] != c by {
            assert(t[j] == s[j + 1]);
        }
        lemma_split_absent(t, c);
    }
}

/// The first index of `c` in `v[lo..]`, with what splitting there means.
fn find_char(v: &Vec<char>, lo: usize, c: char) -> (r: Option<usize>)
    requires
        lo <= v@.len(),
    ensures
        match r {
            Some(i) => lo <= i < v@.len() && split_once(v@.subrange(lo as int, v@.len() as int), c)
                == Some((v@.subrange(lo as int, i as int), v@.subrange(i + 1, v@.len() as int))),
            None => split_once(v@.subrange(lo as int, v@.len() as int), c) is None,
        },
{
    let mut i = lo;
    while i < v.len()
        invariant
            lo <= i <= v@.len(),
            forall|j: int| lo <= j < i ==> v@[j] != c,
        decreases v@.len() - i,
    {
        if v[i] == c {
            proof {
                let s = v@.subrange(lo as int, v@.len() as int);
                assert forall|j: int| 0 <= j < i - lo implies s[j] != c by {
                    assert(s[j] == v@[lo + j]);
                }
                lemma_split_found(s, c, i - lo);
                assert(s.subrange(0, i - lo) == v@.subrange(lo as int, i as int));
                assert(s.subrange(i - lo + 1, s.len() as int) == v@.subrange(i + 1, v@.len() as int));
            }
            return Some(i);
        }
        i += 1;
    }
    proof {
        let s = v@.subrange(lo as int, v@.len() as int);
        assert forall|j: int| 0 <= j < s.len() implies s[j] != c by {
            assert(s[j] == v@[lo + j]);
        }
        lemma_split_absent(s, c);
    }
    None
}

/// Reads `u16::from_str` of `v[lo..hi]`.
pub(crate) fn parse_port(v: &Vec<char>, lo: usize, hi: usize) -> (r: Option<u16>)
    requires
        lo <= hi <= v@.len(),
    ensures
        r == parse_u16(v@.subrange(lo as int, hi as int)),
{
    let ghost s = v@.subrange(lo as int, hi as int);
    let start = if lo < hi && v[lo] == '+' {
        lo + 1
    } else {
        lo
    };
    let ghost d = v@.subrange(start as int, hi as int);
    proof {
        if lo < hi && v@[lo as int] == '+' {
            assert(d == s.drop_first());
        } else {
            assert(d == s);
        }
    }
    if start == hi {
        return None;
    }
    let mut value: u32 = 0;
    let mut i = start;
    while i < hi
        invariant
            start <= i <= hi <= v@.len(),
            d == v@.subrange(start as int, hi as int),
            forall|j: int| start <= j < i ==> is_digit(v@[j]),
            value == digits_value(v@.subrange(start as int, i as int)),
            value <= 65535,
            parse_u16(v@.subrange(lo as int, hi as int)) == parse_digits(d),
            d.len() > 0,
        decreases hi - i,
    {
        let c = v[i];
        if !('0' <= c && c <= '9') {
            proof {
                assert(!is_digit(d[i - start]));
            }
            return None;
        }
        let digit = (c as u32) - ('0' as u32);
        let next = value * 10 + digit;
        proof {
            let p = v@.subrange(start as int, i + 1);
            assert(p.drop_last() == v@.subrange(start as int, i as int));
            assert(p.last() == c);
        }
        if next > 65535 {
            proof {
                if forall|j: int| 0 <= j < d.len() ==> is_digit(#[trigger] d[j]) {
                    lemma_digits_value_grows(d, i - start + 1);
                    assert(d.subrange(0, i - start + 1) == v@.subrange(start as int, i + 1));
                }
            }
            return None;
        }
        value = next;
        i += 1;
    }
    proof {
        assert(v@.subrange(start as int, hi as int) == d);
        assert forall|j: int| 0 <= j < d.len() implies is_digit(#[trigger] d[j]) by {
            assert(d[j] == v@[start + j]);
        }
    }
    Some(value as u16)
}

/// Every digit string extending a prefix is worth at least as much as the prefix.
pub(crate) proof fn lemma_digits_value_grows(d: Seq<char>, k: int)
    requires
        0 <= k <= d.len(),
        forall|j: int| 0 <= j < d.len() ==> is_digit(#[trigger] d[j]),
    ensures
        digits_value(d) >= digits_value(d.subrange(0, k)),
    decreases d.len() - k,
{
    if k < d.len() {
        lemma_digits_value_grows(d, k + 1);
        let p = d.subrange(0, k + 1);
        assert(p.drop_last() == d.subrange(0, k));
        assert(is_digit(p.last()));
    } else {
        assert(d.subrange(0, k) == d);
    }
}

pub open spec fn prompt_view(r: Option<(HostKeyIssue, String, u16, String, Vec<String>)>) -> Option<(HostKeyIssue, Seq<char>, u16, Seq<char>, Seq<Seq<char>>)> {
    match r {
        Some(t) => Some((t.0, t.1@, t.2, t.3@, views(t.4@))),
        None => None,
    }
}

/// The non-empty pieces of `v[lo..]` between commas.
fn saved_fingerprints(v: &Vec<char>, lo: usize) -> (r: Vec<String>)
    requires
        lo <= v@.len(),
    ensures
        views(r@) == nonempty_pieces(v@.subrange(lo as int, v@.len() as int), ','),
    decreases v@.len() - lo,
{
    let ghost s = v@.subrange(lo as int, v@.len() as int);
    match find_char(v, lo, ',') {
        Some(i) => {
            let rest = saved_fingerprints(v, i + 1);
            let ghost p = split_once(s, ',')->0;
            assert(p.1.len() < s.len());
            if i > lo {
                let piece = string_from(v, lo, i);
                let mut r: Vec<String> = Vec::new();
                r.push(piece);
                let mut j: usize = 0;
                let ghost r0 = r@;
                while j < rest.len()
                    invariant
                        j <= rest@.len(),
                        r@ == r0 + rest@.subrange(0, j as int),
                    decreases rest@.len() - j,
                {
                    r.push(rest[j].clone());
                    assert(rest@.subrange(0, j + 1) == rest@.subrange(0, j as int).push(rest@[j as int]));
                    j += 1;
                }
                assert(rest@.subrange(0, rest@.len() as int) == rest@);
                assert(views(r@) =~= seq![piece@] + views(rest@));
                r
            } else {
                rest
            }
        },
        None => {
            let mut r: Vec<String> = Vec::new();
            if lo < v.len() {
                r.push(string_from(v, lo, v.len()));
            }
            assert(views(r@) =~= nonempty_pieces(s, ','));
            r
        },
    }
}

fn starts_with_at(v: &Vec<char>, prefix: &str) -> (r: bool)
    ensures
        r == crate::text::starts_with(v@, prefix@),
{
    let p = chars_of(prefix);
    if p.len() > v.len() {
        return false;
    }
    let mut i: usize = 0;
    while i < p.len()
        invariant
            i <= p@.len() <= v@.len(),
            p@ == prefix@,
            forall|j: int| 0 <= j < i ==> v@[j] == p@[j],
        decreases p@.len() - i,
    {
        if v[i] != p[i] {
            assert(v@.subrange(0, p@.len() as int)[i as int] != p@[i as int]);
            assert(v@.subrange(0, p@.len() as int) != p@);
            return false;
        }
        i += 1;
    }
    assert(v@.subrange(0, p@.len() as int) =~= p@);
    true
}

/// Reads a host key message back: the issue, host, port, presented fingerprint and
/// saved fingerprints. Any other message gives `None`.
pub fn parse_host_key_prompt(message: &str) -> (r: Option<(HostKeyIssue, String, u16, String, Vec<String>)>)
    ensures
        prompt_view(r) == prompt_of(message@),
{
    let v = chars_of(message);
    proof {
        reveal_strlit("HOST_KEY_NOT_TRUSTED|");
        reveal_strlit("HOST_KEY_CHANGED|");
        reveal_strlit("HOST_KEY_REVOKED|");
    }
    let (issue, start) = if starts_with_at(&v, "HOST_KEY_NOT_TRUSTED|") {
        (HostKeyIssue::Unknown, 21usize)
    } else if starts_with_at(&v, "HOST_KEY_CHANGED|") {
        (HostKeyIssue::Changed, 17usize)
    } else if starts_with_at(&v, "HOST_KEY_REVOKED|") {
        (HostKeyIssue::Revoked, 17usize)
    } else {
        return None;
    };
    let ghost st = v@.subrange(start as int, v@.len() as int);
    let a = match find_char(&v, start, '|') {
        Some(a) => a,
        None => return None,
    };
    proof {
        let sp = split_once(st, '|')->0;
        assert(v@.subrange(a + 1, v@.len() as int) == sp.1);
    }
    let b = match find_char(&v, a + 1, '|') {
        Some(b) => b,
        None => return None,
    };
    let (fp_end, saved_start) = match find_char(&v, b + 1, '|') {
        Some(c) => (c, c + 1),
        None => (v.len(), v.len()),
    };
    assert(v@.subrange(v@.len() as int, v@.len() as int) == Seq::<char>::empty());
    let port = match parse_port(&v, a + 1, b) {
        Some(p) => p,
        None => return None,
    };
    if !(a > start && fp_end > b + 1) {
        return None;
    }
    let host = string_from(&v, start, a);
    let fingerprint = string_from(&v, b + 1, fp_end);
    let saved = saved_fingerprints(&v, saved_start);
    Some((issue, host, port, fingerprint, saved))
}

} // verus!

verus! {

proof fn lemma_digit_char(k: nat)
    requires
        k < 10,
    ensures
        is_digit(digit_char(k)),
        ((digit_char(k) as u32) - ('0' as u32)) as nat == k,
{
    assert(('0' as u32) == 48);
    assert((digit_char(k) as u32) == 48 + k);
}

pub(crate) proof fn lemma_decimal_digits(n: nat)
    ensures
        decimal(n).len() > 0,
        forall|i: int| 0 <= i < decimal(n).len() ==> is_digit(#[trigger] decimal(n)[i]),
        digits_value(decimal(n)) == n,
    decreases n,
{
    if n >= 10 {
        lemma_decimal_digits(n / 10);
        lemma_digit_char(n % 10);
        let d = decimal(n);
        assert(d.drop_last() == decimal(n / 10));
        assert(d.last() == digit_char(n % 10));
        assert(digits_value(d) == digits_value(decimal(n / 10)) * 10 + (n % 10));
        assert forall|i: int| 0 <= i < d.len() implies is_digit(#[trigger] d[i]) by {
            if i < d.len() - 1 {
                assert(d[i] == decimal(n / 10)[i]);
            }
        }
    } else {
        lemma_digit_char(n);
        let d = decimal(n);
        assert(d.drop_last().len() == 0);
        assert(digits_value(d.drop_last()) == 0);
    }
}

pub(crate) proof fn lemma_parse_decimal(port: u16)
    ensures
        parse_u16(decimal(port as nat)) == Some(port),
{
    lemma_decimal_digits(port as nat);
    let d = decimal(port as nat);
    assert(is_digit(d[0]));
}

proof fn lemma_join_front(parts: Seq<Seq<char>>, sep: char)
    requires
        parts.len() >= 2,
    ensures
        join_with(parts, sep) == parts[0] + seq![sep] + join_with(parts.drop_first(), sep),
    decreases parts.len(),
{
    let a = parts.drop_last();
    let b = parts.drop_first();
    if parts.len() > 2 {
        lemma_join_front(a, sep);
        assert(a.drop_first() == b.drop_last());
        assert(b.last() == parts.last());
        assert(a[0] == parts[0]);
        assert(join_with(b, sep) == join_with(b.drop_last(), sep) + seq![sep] + b.last());
        assert(join_with(parts, sep) == join_with(a, sep) + seq![sep] + parts.last());
        assert(join_with(a, sep) == a[0] + seq![sep] + join_with(a.drop_first(), sep));
    } else {
        assert(a.len() == 1);
        assert(b.len() == 1);
        assert(a[0] == parts[0]);
        assert(b[0] == parts.last());
        assert(join_with(a, sep) == parts[0]);
        assert(join_with(b, sep) == parts.last());
    }
}

proof fn lemma_split_prefix(a: Seq<char>, c: char, b: Seq<char>)
    requires
        forall|j: int| 0 <= j < a.len() ==> a[j] != c,
    ensures
        split_once(a + seq![c] + b, c) == Some((a, b)),
{
    let s = a + seq![c] + b;
    assert forall|j: int| 0 <= j < a.len() implies s[j] != c by {
        assert(s[j] == a[j]);
    }
    lemma_split_found(s, c, a.len() as int);
    assert(s.subrange(0, a.len() as int) == a);
    assert(s.subrange(a.len() as int + 1, s.len() as int) == b);
}

proof fn lemma_pieces_of_join(parts: Seq<Seq<char>>)
    requires
        forall|i: int|
            0 <= i < parts.len() ==> (#[trigger] parts[i]).len() > 0 && forall|j: int|
                0 <= j < parts[i].len() ==> parts[i][j] != ',',
    ensures
        nonempty_pieces(join_with(parts, ','), ',') == parts,
    decreases parts.len(),
{
    if parts.len() == 0 {
        assert(join_with(parts, ',').len() == 0);
    } else if parts.len() == 1 {
        assert(parts[0].len() > 0);
        lemma_split_absent(parts[0], ',');
    } else {
        lemma_join_front(parts, ',');
        let rest = parts.drop_first();
        assert forall|i: int|
            0 <= i < rest.len() implies (#[trigger] rest[i]).len() > 0 && forall|j: int|
                0 <= j < rest[i].len() ==> rest[i][j] != ',' by {
            assert(rest[i] == parts[i + 1]);
        }
        lemma_pieces_of_join(rest);
        assert(parts[0].len() > 0);
        lemma_split_prefix(parts[0], ',', join_with(rest, ','));
        assert(seq![parts[0]] + rest == parts);
    }
}

/// Reading back a host key message gives what it was built from, where the host
/// and the fingerprint are non-empty and free of `|`, and every saved fingerprint
/// is non-empty and free of `,`.
pub proof fn lemma_host_key_message_round_trip(
    issue: HostKeyIssue,
    host: Seq<char>,
    port: u16,
    fingerprint: Seq<char>,
    saved: Seq<Seq<char>>,
)
    requires
        host.len() > 0,
        forall|j: int| 0 <= j < host.len() ==> host[j] != '|',
        fingerprint.len() > 0,
        forall|j: int| 0 <= j < fingerprint.len() ==> fingerprint[j] != '|',
        forall|i: int|
            0 <= i < saved.len() ==> (#[trigger] saved[i]).len() > 0 && forall|j: int|
                0 <= j < saved[i].len() ==> saved[i][j] != ',',
    ensures
        prompt_of(host_key_message(issue, host, port, fingerprint, saved)) == Some(
            (issue, host, port, fingerprint, saved),
        ),
{
    reveal_strlit("HOST_KEY_NOT_TRUSTED|");
    reveal_strlit("HOST_KEY_CHANGED|");
    reveal_strlit("HOST_KEY_REVOKED|");
    reveal_strlit("HOST_KEY_NOT_TRUSTED");
    reveal_strlit("HOST_KEY_CHANGED");
    reveal_strlit("HOST_KEY_REVOKED");
    reveal_strlit("|");
    let dec = decimal(port as nat);
    let joined = join_with(saved, ',');
    let tail = host + seq!['|'] + (dec + seq!['|'] + (fingerprint + seq!['|'] + joined));
    let tag = issue_tag(issue);
    let m = host_key_message(issue, host, port, fingerprint, saved);
    assert(m =~= tag + seq!['|'] + tail);
    let pre = tag + seq!['|'];
    assert(m.subrange(0, pre.len() as int) =~= pre);
    assert(m.subrange(pre.len() as int, m.len() as int) =~= tail);
    match issue {
        HostKeyIssue::Unknown => {
            assert(pre =~= "HOST_KEY_NOT_TRUSTED|"@);
        },
        HostKeyIssue::Changed => {
            assert(pre =~= "HOST_KEY_CHANGED|"@);
            assert(m[9] != "HOST_KEY_NOT_TRUSTED|"@[9]);
            assert(m.subrange(0, 21) != "HOST_KEY_NOT_TRUSTED|"@);
        },
        HostKeyIssue::Revoked => {
            assert(pre =~= "HOST_KEY_REVOKED|"@);
            assert(m[9] != "HOST_KEY_NOT_TRUSTED|"@[9]);
            assert(m.subrange(0, 21) != "HOST_KEY_NOT_TRUSTED|"@ || m.len() < 21);
            assert(m[9] != "HOST_KEY_CHANGED|"@[9]);
            assert(m.subrange(0, 17) != "HOST_KEY_CHANGED|"@);
        },
    }
    lemma_decimal_digits(port as nat);
    assert forall|j: int| 0 <= j < dec.len() implies dec[j] != '|' by {
        assert(is_digit(dec[j]));
    }
    lemma_split_prefix(host, '|', dec + seq!['|'] + (fingerprint + seq!['|'] + joined));
    lemma_split_prefix(dec, '|', fingerprint + seq!['|'] + joined);
    lemma_split_prefix(fingerprint, '|', joined);
    lemma_parse_decimal(port);
    lemma_pieces_of_join(saved);
}

} // verus!
