//! Character-level text helpers shared by the parsers and message builders.

use vstd::prelude::*;
use vstd::std_specs::iter::IteratorSpec;

verus! {

/// Unicode `White_Space`, the set that `char::is_whitespace` and `str::trim` use.
pub open spec fn is_ws(c: char) -> bool {
    let u = c as u32;
    ||| (0x9 <= u && u <= 0xd)
    ||| u == 0x20
    ||| u == 0x85
    ||| u == 0xa0
    ||| u == 0x1680
    ||| (0x2000 <= u && u <= 0x200a)
    ||| u == 0x2028
    ||| u == 0x2029
    ||| u == 0x202f
    ||| u == 0x205f
    ||| u == 0x3000
}

pub fn is_whitespace(c: char) -> (r: bool)
    ensures
        r == is_ws(c),
{
    let u = c as u32;
    (0x9 <= u && u <= 0xd) || u == 0x20 || u == 0x85 || u == 0xa0 || u == 0x1680 || (0x2000
        <= u && u <= 0x200a) || u == 0x2028 || u == 0x2029 || u == 0x202f || u == 0x205f || u
        == 0x3000
}

/// Every character is whitespace: what `s.trim().is_empty()` tests.
pub open spec fn blank(s: Seq<char>) -> bool {
    forall|i: int| 0 <= i < s.len() ==> is_ws(#[trigger] s[i])
}

/// `s` without its leading whitespace.
pub open spec fn trim_start(s: Seq<char>) -> Seq<char>
    decreases s.len(),
{
    if s.len() > 0 && is_ws(s[0]) {
        trim_start(s.drop_first())
    } else {
        s
    }
}

/// `s` without its trailing whitespace.
pub open spec fn trim_end(s: Seq<char>) -> Seq<char>
    decreases s.len(),
{
    if s.len() > 0 && is_ws(s.last()) {
        trim_end(s.drop_last())
    } else {
        s
    }
}

/// `s` without leading and trailing whitespace, as `str::trim` gives it.
pub open spec fn trim(s: Seq<char>) -> Seq<char> {
    trim_end(trim_start(s))
}

/// ASCII lowercase of one character; other characters are kept.
pub open spec fn lower(c: char) -> char {
    if 'A' <= c && c <= 'Z' {
        ((c as u32) + 32) as char
    } else {
        c
    }
}

/// ASCII lowercase of a whole text, as `to_ascii_lowercase` gives it.
pub open spec fn lower_seq(s: Seq<char>) -> Seq<char> {
    Seq::new(s.len(), |i: int| lower(s[i]))
}

/// `prefix` is a prefix of `s`.
pub open spec fn starts_with(s: Seq<char>, prefix: Seq<char>) -> bool {
    prefix.len() <= s.len() && s.subrange(0, prefix.len() as int) == prefix
}

/// The character of a decimal digit.
pub open spec fn digit_char(d: nat) -> char {
    ('0' as u32 + d) as char
}

/// The decimal representation of `n`, without leading zeros.
pub open spec fn decimal(n: nat) -> Seq<char>
    decreases n,
{
    if n < 10 {
        seq![digit_char(n)]
    } else {
        decimal(n / 10).push(digit_char(n % 10))
    }
}

/// Appends one character, as `String::push` does.
#[verifier::external_body]
pub(crate) fn push_char(s: &mut String, c: char)
    ensures
        final(s)@ == old(s)@.push(c),
{
    s.push(c);
}

/// Appends a string slice, as `String::push_str` does.
#[verifier::external_body]
pub(crate) fn push_str(s: &mut String, t: &str)
    ensures
        final(s)@ == old(s)@ + t@,
{
    s.push_str(t);
}

/// An owned copy of a string slice.
pub fn owned(s: &str) -> (r: String)
    ensures
        r@ == s@,
{
    s.to_owned()
}

/// The characters of a string slice, in order.
pub fn chars_of(s: &str) -> (v: Vec<char>)
    ensures
        v@ == s@,
{
    let mut v: Vec<char> = Vec::new();
    let mut it = s.chars();
    loop
        invariant
            it.obeys_prophetic_iter_laws(),
            v@ + it.remaining() == s@,
            it.decrease() is Some,
        ensures
            v@ == s@,
        decreases it.decrease()->0,
    {
        match it.next() {
            Some(c) => {
                v.push(c);
            },
            None => {
                break;
            },
        }
    }
    v
}

/// The string made of `v[lo..hi]`.
pub fn string_from(v: &Vec<char>, lo: usize, hi: usize) -> (r: String)
    requires
        lo <= hi <= v.len(),
    ensures
        r@ == v@.subrange(lo as int, hi as int),
{
    let mut r = String::new();
    let mut i = lo;
    while i < hi
        invariant
            lo <= i <= hi <= v.len(),
            r@ == v@.subrange(lo as int, i as int),
        decreases hi - i,
    {
        push_char(&mut r, v[i]);
        assert(v@.subrange(lo as int, i + 1) == v@.subrange(lo as int, i as int).push(v@[i as int]));
        i += 1;
    }
    r
}

pub proof fn lemma_trim_start_is_suffix(s: Seq<char>)
    ensures
        exists|k: int|
            0 <= k <= s.len() && #[trigger] s.subrange(k, s.len() as int) == trim_start(s) && (
            forall|j: int| 0 <= j < k ==> is_ws(#[trigger] s[j])) && (k < s.len() ==> !is_ws(
                s[k],
            )),
    decreases s.len(),
{
    if s.len() > 0 && is_ws(s[0]) {
        lemma_trim_start_is_suffix(s.drop_first());
        let k = choose|k: int|
            0 <= k <= s.drop_first().len() && #[trigger] s.drop_first().subrange(
                k,
                s.drop_first().len() as int,
            ) == trim_start(s.drop_first()) && (forall|j: int|
                0 <= j < k ==> is_ws(#[trigger] s.drop_first()[j])) && (k < s.drop_first().len()
                ==> !is_ws(s.drop_first()[k]));
        assert(s.subrange(k + 1, s.len() as int) == s.drop_first().subrange(
            k,
            s.drop_first().len() as int,
        ));
        assert forall|j: int| 0 <= j < k + 1 implies is_ws(#[trigger] s[j]) by {
            if j > 0 {
                assert(s[j] == s.drop_first()[j - 1]);
            }
        }
        assert(s.subrange(k + 1, s.len() as int) == trim_start(s));
    } else {
        assert(s.subrange(0, s.len() as int) == s);
    }
}

/// Index of the first non-whitespace character of `v[lo..hi]` (or `hi`).
fn skip_ws_forward(v: &Vec<char>, lo: usize, hi: usize) -> (k: usize)
    requires
        lo <= hi <= v.len(),
    ensures
        lo <= k <= hi,
        forall|j: int| lo <= j < k ==> is_ws(#[trigger] v@[j]),
        k < hi ==> !is_ws(v@[k as int]),
{
    let mut k = lo;
    while k < hi && is_whitespace(v[k])
        invariant
            lo <= k <= hi <= v.len(),
            forall|j: int| lo <= j < k ==> is_ws(#[trigger] v@[j]),
        decreases hi - k,
    {
        k += 1;
    }
    k
}

proof fn lemma_trim_start_skip(s: Seq<char>, k: int)
    requires
        0 <= k <= s.len(),
        forall|j: int| 0 <= j < k ==> is_ws(#[trigger] s[j]),
        k < s.len() ==> !is_ws(s[k]),
    ensures
        trim_start(s) == s.subrange(k, s.len() as int),
    decreases s.len(),
{
    if k == 0 {
        assert(s.subrange(0, s.len() as int) == s);
    } else {
        let t = s.drop_first();
        assert forall|j: int| 0 <= j < k - 1 implies is_ws(#[trigger] t[j]) by {
            assert(t[j] == s[j + 1]);
        }
        if k - 1 < t.len() {
            assert(t[k - 1] == s[k]);
        }
        lemma_trim_start_skip(t, k - 1);
        assert(t.subrange(k - 1, t.len() as int) == s.subrange(k, s.len() as int));
    }
}

proof fn lemma_trim_end_skip(s: Seq<char>, k: int)
    requires
        0 <= k <= s.len(),
        forall|j: int| k <= j < s.len() ==> is_ws(#[trigger] s[j]),
        k > 0 ==> !is_ws(s[k - 1]),
    ensures
        trim_end(s) == s.subrange(0, k),
    decreases s.len(),
{
    if k == s.len() {
        assert(s.subrange(0, s.len() as int) == s);
    } else {
        let t = s.drop_last();
        assert forall|j: int| k <= j < t.len() implies is_ws(#[trigger] t[j]) by {
            assert(t[j] == s[j]);
        }
        if k > 0 {
            assert(t[k - 1] == s[k - 1]);
        }
        lemma_trim_end_skip(t, k);
        assert(t.subrange(0, k) == s.subrange(0, k));
    }
}

/// The bounds of `trim(v)` inside `v`.
pub fn trim_bounds(v: &Vec<char>) -> (r: (usize, usize))
    ensures
        r.0 <= r.1 <= v.len(),
        v@.subrange(r.0 as int, r.1 as int) == trim(v@),
{
    let lo = skip_ws_forward(v, 0, v.len());
    proof {
        lemma_trim_start_skip(v@, lo as int);
    }
    let mut hi = v.len();
    while hi > lo && is_whitespace(v[hi - 1])
        invariant
            lo <= hi <= v.len(),
            forall|j: int| hi <= j < v.len() ==> is_ws(#[trigger] v@[j]),
        decreases hi,
    {
        hi -= 1;
    }
    proof {
        let s = v@.subrange(lo as int, v.len() as int);
        let k = hi - lo;
        assert forall|j: int| k <= j < s.len() implies is_ws(#[trigger] s[j]) by {
            assert(s[j] == v@[lo + j]);
        }
        if k > 0 {
            assert(s[k - 1] == v@[hi - 1]);
        }
        lemma_trim_end_skip(s, k as int);
        assert(s.subrange(0, k as int) == v@.subrange(lo as int, hi as int));
    }
    (lo, hi)
}

/// `s.trim()` as an owned string.
pub fn trimmed(s: &str) -> (r: String)
    ensures
        r@ == trim(s@),
{
    let v = chars_of(s);
    let (lo, hi) = trim_bounds(&v);
    string_from(&v, lo, hi)
}

pub proof fn lemma_blank_trim(s: Seq<char>)
    ensures
        blank(s) <==> trim(s).len() == 0,
{
    lemma_trim_start_is_suffix(s);
    let k = choose|k: int|
        0 <= k <= s.len() && #[trigger] s.subrange(k, s.len() as int) == trim_start(s) && (
        forall|j: int| 0 <= j < k ==> is_ws(#[trigger] s[j])) && (k < s.len() ==> !is_ws(s[k]));
    let t = trim_start(s);
    if k < s.len() {
        assert(t[0] == s[k]);
        assert(!is_ws(t[0]));
        lemma_trim_end_keeps_first(t);
        assert(!blank(s));
    } else {
        assert(t.len() == 0);
        assert(trim_end(t) == t);
    }
}

proof fn lemma_trim_end_keeps_first(t: Seq<char>)
    requires
        t.len() > 0,
        !is_ws(t[0]),
    ensures
        trim_end(t).len() > 0,
    decreases t.len(),
{
    if is_ws(t.last()) {
        assert(t.len() > 1);
        assert(t.drop_last()[0] == t[0]);
        lemma_trim_end_keeps_first(t.drop_last());
    }
}

/// Whether `s.trim().is_empty()`.
pub fn is_blank(s: &str) -> (r: bool)
    ensures
        r == blank(s@),
        r == (trim(s@).len() == 0),
{
    proof {
        lemma_blank_trim(s@);
    }
    let v = chars_of(s);
    let k = skip_ws_forward(&v, 0, v.len());
    k == v.len()
}

/// The decimal text of `n`.
pub fn decimal_string(n: u64) -> (r: String)
    ensures
        r@ == decimal(n as nat),
{
    let mut digits: Vec<char> = Vec::new();
    let mut m = n;
    // digits are gathered least significant first
    let ghost mut suffix: Seq<char> = Seq::empty();
    loop
        invariant
            decimal(n as nat) == decimal(m as nat) + suffix,
            digits@ == suffix.reverse(),
            m > 0 || suffix.len() == 0,
        ensures
            decimal(n as nat) == decimal(m as nat) + suffix,
            digits@ == suffix.reverse(),
            m < 10,
        decreases m,
    {
        if m < 10 {
            break;
        }
        let d = (m % 10) as u32;
        let c = char_from_digit(d);
        proof {
            assert(decimal(m as nat) == decimal((m / 10) as nat).push(digit_char((m % 10) as nat)));
            assert(decimal((m / 10) as nat).push(c) + suffix == decimal((m / 10) as nat) + seq![c] + suffix);
            assert(seq![c] + suffix == (seq![c] + suffix));
            assert((seq![c] + suffix).reverse() == suffix.reverse().push(c)) by {
                assert forall|i: int| 0 <= i < suffix.len() + 1 implies (seq![c] + suffix).reverse()[i] == suffix.reverse().push(c)[i] by {}
            }
            suffix = seq![c] + suffix;
        }
        digits.push(c);
        m = m / 10;
    }
    let last = char_from_digit(m as u32);
    let mut r = String::new();
    push_char(&mut r, last);
    let mut i = digits.len();
    while i > 0
        invariant
            i <= digits.len(),
            digits@ == suffix.reverse(),
            r@ == seq![last] + suffix.subrange(0, (digits.len() - i) as int),
            decimal(n as nat) == seq![last] + suffix,
        decreases i,
    {
        i -= 1;
        push_char(&mut r, digits[i]);
        proof {
            let j = (digits.len() - 1 - i) as int;
            assert(digits@[i as int] == suffix[j]);
            assert(suffix.subrange(0, j + 1) == suffix.subrange(0, j).push(suffix[j]));
        }
    }
    assert(suffix.subrange(0, suffix.len() as int) == suffix);
    r
}

fn char_from_digit(d: u32) -> (c: char)
    requires
        d < 10,
    ensures
        c == digit_char(d as nat),
{
    if d == 0 { '0' }
    else if d == 1 { '1' }
    else if d == 2 { '2' }
    else if d == 3 { '3' }
    else if d == 4 { '4' }
    else if d == 5 { '5' }
    else if d == 6 { '6' }
    else if d == 7 { '7' }
    else if d == 8 { '8' }
    else { '9' }
}

} // verus!
