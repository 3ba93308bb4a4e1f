//! Reading host entries out of an OpenSSH client configuration: the `Host` blocks
//! with their `HostName`, `User`, `Port` and `IdentityFile`, and the `Include`
//! directives, in the order they take effect. Reading the files themselves, and
//! following includes from file to file, is the caller's part.

use vstd::prelude::*;
use crate::text::{trim, lower_seq, is_ws, is_whitespace, starts_with, chars_of, string_from, trim_bounds, owned, push_str};
use crate::host_key_prompt::{parse_u16, parse_port};
use crate::store::path_join;

verus! {

/// One `Host` entry of the configuration.
#[derive(Debug, PartialEq, Eq)]
pub struct SshHostConfig {
    pub host: String,
    pub host_name: Option<String>,
    pub user: Option<String>,
    pub port: Option<u16>,
    pub identity_file: Option<String>,
}

/// A host entry as a value.
pub struct HostView {
    pub host: Seq<char>,
    pub host_name: Option<Seq<char>>,
    pub user: Option<Seq<char>>,
    pub port: Option<u16>,
    pub identity_file: Option<Seq<char>>,
}

/// The text of an optional string.
pub open spec fn opt_view(o: Option<String>) -> Option<Seq<char>> {
    match o {
        Some(s) => Some(s@),
        None => None,
    }
}

impl View for SshHostConfig {
    type V = HostView;

    open spec fn view(&self) -> HostView {
        HostView {
            host: self.host@,
            host_name: opt_view(self.host_name),
            user: opt_view(self.user),
            port: self.port,
            identity_file: opt_view(self.identity_file),
        }
    }
}

impl Clone for SshHostConfig {
    fn clone(&self) -> (r: Self)
        ensures
            r@ == self@,
    {
        SshHostConfig {
            host: self.host.clone(),
            host_name: crate::config::clone_opt_string(&self.host_name),
            user: crate::config::clone_opt_string(&self.user),
            port: self.port,
            identity_file: crate::config::clone_opt_string(&self.identity_file),
        }
    }
}

impl Default for SshHostConfig {
    fn default() -> (r: Self)
        ensures
            r@ == named_host(Seq::empty()),
    {
        SshHostConfig { host: String::new(), host_name: None, user: None, port: None, identity_file: None }
    }
}

/// What a configuration file yields, in order: finished host entries, and include
/// patterns at the place where the hosts they bring in belong.
#[derive(Debug, PartialEq, Eq)]
pub enum ConfigEntry {
    Host(SshHostConfig),
    Include(String),
}

/// An entry as a value.
pub enum EntryView {
    Host(HostView),
    Include(Seq<char>),
}

impl View for ConfigEntry {
    type V = EntryView;

    open spec fn view(&self) -> EntryView {
        match self {
            ConfigEntry::Host(h) => EntryView::Host(h@),
            ConfigEntry::Include(p) => EntryView::Include(p@),
        }
    }
}

/// The position of the first `c` in `s`.
pub open spec fn index_of(s: Seq<char>, c: char) -> Option<nat>
    decreases s.len(),
{
    if s.len() == 0 {
        None
    } else if s[0] == c {
        Some(0)
    } else {
        match index_of(s.drop_first(), c) {
            Some(i) => Some(i + 1),
            None => None,
        }
    }
}

/// The position of the first whitespace character in `s`.
pub open spec fn index_of_ws(s: Seq<char>) -> Option<nat>
    decreases s.len(),
{
    if s.len() == 0 {
        None
    } else if is_ws(s[0]) {
        Some(0)
    } else {
        match index_of_ws(s.drop_first()) {
            Some(i) => Some(i + 1),
            None => None,
        }
    }
}

/// `s` without leading double quotes.
pub open spec fn drop_leading_quotes(s: Seq<char>) -> Seq<char>
    decreases s.len(),
{
    if s.len() > 0 && s[0] == '"' {
        drop_leading_quotes(s.drop_first())
    } else {
        s
    }
}

/// `s` without trailing double quotes.
pub open spec fn drop_trailing_quotes(s: Seq<char>) -> Seq<char>
    decreases s.len(),
{
    if s.len() > 0 && s.last() == '"' {
        drop_trailing_quotes(s.drop_last())
    } else {
        s
    }
}

/// A value as the configuration means it: trimmed, without surrounding double quotes,
/// trimmed again.
pub open spec fn clean_value(s: Seq<char>) -> Seq<char> {
    trim(drop_trailing_quotes(drop_leading_quotes(trim(s))))
}

/// A line split into its keyword and value. The two are separated by the first `=`
/// where the line has one, else by the first whitespace. Blank lines, comments and
/// lines without a separator yield nothing.
pub open spec fn directive(line: Seq<char>) -> Option<(Seq<char>, Seq<char>)> {
    let t = trim(line);
    if t.len() == 0 || t[0] == '#' {
        None
    } else {
        let split = match index_of(t, '=') {
            Some(i) => Some(i),
            None => index_of_ws(t),
        };
        match split {
            None => None,
            Some(i) => Some(
                (trim(t.subrange(0, i as int)), clean_value(t.subrange(i + 1 as int, t.len() as int))),
            ),
        }
    }
}

/// The first whitespace-separated word of a trimmed value (empty for an empty value).
pub open spec fn first_word(v: Seq<char>) -> Seq<char> {
    match index_of_ws(v) {
        Some(i) => v.subrange(0, i as int),
        None => v,
    }
}

/// A path pushed onto a base path as `Path::join` does it: an absolute path
/// replaces the base.
pub open spec fn path_push(base: Seq<char>, p: Seq<char>) -> Seq<char> {
    if p.len() > 0 && p[0] == '/' {
        p
    } else {
        path_join(base, p)
    }
}

/// A path with a leading `~/` resolved against the home directory, where one is
/// known.
pub open spec fn expand_home(path: Seq<char>, home: Option<Seq<char>>) -> Seq<char> {
    match home {
        Some(h) => if starts_with(path, "~/"@) {
            path_push(h, path.subrange(2, path.len() as int))
        } else {
            path
        },
        None => path,
    }
}

/// The state of reading a file: the host block being read and what is finished.
pub struct ParseState {
    pub current: Option<HostView>,
    pub entries: Seq<EntryView>,
}

/// A host entry with only its name.
pub open spec fn named_host(name: Seq<char>) -> HostView {
    HostView { host: name, host_name: None, user: None, port: None, identity_file: None }
}

/// What one line does to the state. Keywords are matched ignoring ASCII case (which,
/// for these keywords, is the same as comparing lowercased text).
pub open spec fn apply_line(st: ParseState, line: Seq<char>, home: Option<Seq<char>>) -> ParseState {
    match directive(line) {
        None => st,
        Some((key, value)) => {
            let k = lower_seq(key);
            if k == "host"@ {
                ParseState {
                    current: Some(named_host(first_word(value))),
                    entries: match st.current {
                        Some(h) => st.entries.push(EntryView::Host(h)),
                        None => st.entries,
                    },
                }
            } else if k == "include"@ {
                ParseState {
                    current: st.current,
                    entries: st.entries.push(EntryView::Include(expand_home(value, home))),
                }
            } else {
                match st.current {
                    None => st,
                    Some(h) => {
                        let h2 = if k == "hostname"@ {
                            HostView { host_name: Some(value), ..h }
                        } else if k == "user"@ {
                            HostView { user: Some(value), ..h }
                        } else if k == "port"@ {
                            match parse_u16(value) {
                                Some(p) => HostView { port: Some(p), ..h },
                                None => h,
                            }
                        } else if k == "identityfile"@ {
                            HostView { identity_file: Some(expand_home(value, home)), ..h }
                        } else {
                            h
                        };
                        ParseState { current: Some(h2), entries: st.entries }
                    },
                }
            }
        },
    }
}

/// Reads the lines of `text` (separated by line feeds) one after another.
pub open spec fn scan(st: ParseState, text: Seq<char>, home: Option<Seq<char>>) -> ParseState
    decreases text.len(),
{
    match index_of(text, '\n') {
        Some(i) => {
            proof {
                lemma_index_of_bounds(text, '\n');
            }
            scan(
            apply_line(st, text.subrange(0, i as int), home),
            text.subrange(i + 1 as int, text.len() as int),
            home,
        )
        },
        None => apply_line(st, text, home),
    }
}

/// The entries of a configuration text: those finished while reading, then the last
/// host block.
pub open spec fn config_entries(text: Seq<char>, home: Option<Seq<char>>) -> Seq<EntryView> {
    let st = scan(ParseState { current: None, entries: Seq::empty() }, text, home);
    match st.current {
        Some(h) => st.entries.push(EntryView::Host(h)),
        None => st.entries,
    }
}

pub proof fn lemma_index_of_bounds(s: Seq<char>, c: char)
    ensures
        match index_of(s, c) {
            Some(i) => i < s.len() && s[i as int] == c && forall|j: int| 0 <= j < i ==> s[j] != c,
            None => forall|j: int| 0 <= j < s.len() ==> s[j] != c,
        },
    decreases s.len(),
{
    if s.len() > 0 {
        lemma_index_of_bounds(s.drop_first(), c);
        if s[0] != c {
            assert forall|j: int| 1 <= j < s.len() implies s[j] == s.drop_first()[j - 1] by {}
        }
    }
}

pub proof fn lemma_index_of_exact(s: Seq<char>, c: char, i: int)
    requires
        0 <= i <= s.len(),
        forall|j: int| 0 <= j < i ==> s[j] != c,
        i < s.len() ==> s[i] == c,
    ensures
        index_of(s, c) == if i < s.len() {
            Some(i as nat)
        } else {
            None::<nat>
        },
    decreases i,
{
    if i > 0 {
        lemma_index_of_exact(s.drop_first(), c, i - 1);
    }
}

proof fn lemma_index_of_ws_exact(s: Seq<char>, i: int)
    requires
        0 <= i <= s.len(),
        forall|j: int| 0 <= j < i ==> !is_ws(s[j]),
        i < s.len() ==> is_ws(s[i]),
    ensures
        index_of_ws(s) == if i < s.len() {
            Some(i as nat)
        } else {
            None::<nat>
        },
    decreases i,
{
    if i > 0 {
        lemma_index_of_ws_exact(s.drop_first(), i - 1);
    }
}

/// The first position in `v[lo..hi]` holding `c`, as an offset into `v`.
fn find_in(v: &Vec<char>, lo: usize, hi: usize, c: char) -> (r: usize)
    requires
        lo <= hi <= v@.len(),
    ensures
        lo <= r <= hi,
        index_of(v@.subrange(lo as int, hi as int), c) == if r < hi {
            Some((r - lo) as nat)
        } else {
            None::<nat>
        },
{
    let mut i = lo;
    while i < hi && v[i] != c
        invariant
            lo <= i <= hi <= v@.len(),
            forall|j: int| lo <= j < i ==> v@[j] != c,
        decreases hi - i,
    {
        i += 1;
    }
    proof {
        let s = v@.subrange(lo as int, hi as int);
        lemma_index_of_exact(s, c, i - lo);
    }
    i
}

/// The first whitespace position in `v`, or its length.
fn find_ws(v: &Vec<char>) -> (r: usize)
    ensures
        r <= v@.len(),
        index_of_ws(v@) == if r < v@.len() {
            Some(r as nat)
        } else {
            None::<nat>
        },
{
    let mut i: usize = 0;
    while i < v.len() && !is_whitespace(v[i])
        invariant
            i <= v@.len(),
            forall|j: int| 0 <= j < i ==> !is_ws(v@[j]),
        decreases v@.len() - i,
    {
        i += 1;
    }
    proof {
        lemma_index_of_ws_exact(v@, i as int);
    }
    i
}

/// A copy of `v[lo..hi]`.
fn slice_of(v: &Vec<char>, lo: usize, hi: usize) -> (r: Vec<char>)
    requires
        lo <= hi <= v@.len(),
    ensures
        r@ == v@.subrange(lo as int, hi as int),
{
    let mut r: Vec<char> = Vec::new();
    let mut i = lo;
    while i < hi
        invariant
            lo <= i <= hi <= v@.len(),
            r@ == v@.subrange(lo as int, i as int),
        decreases hi - i,
    {
        r.push(v[i]);
        i += 1;
        assert(r@ =~= v@.subrange(lo as int, i as int));
    }
    r
}

/// `trim(v)` as a new vector.
fn trim_vec(v: &Vec<char>) -> (r: Vec<char>)
    ensures
        r@ == trim(v@),
{
    let (lo, hi) = trim_bounds(v);
    slice_of(v, lo, hi)
}

fn drop_quotes_vec(v: &Vec<char>) -> (r: Vec<char>)
    ensures
        r@ == drop_trailing_quotes(drop_leading_quotes(v@)),
{
    let mut lo: usize = 0;
    assert(v@.subrange(0, v@.len() as int) =~= v@);
    while lo < v.len() && v[lo] == '"'
        invariant
            lo <= v@.len(),
            drop_leading_quotes(v@) == drop_leading_quotes(v@.subrange(lo as int, v@.len() as int)),
        decreases v@.len() - lo,
    {
        assert(v@.subrange(lo as int, v@.len() as int).drop_first() =~= v@.subrange(
            lo + 1,
            v@.len() as int,
        ));
        lo += 1;
    }
    assert(drop_leading_quotes(v@) == v@.subrange(lo as int, v@.len() as int));
    let mut hi = v.len();
    while hi > lo && v[hi - 1] == '"'
        invariant
            lo <= hi <= v@.len(),
            drop_trailing_quotes(v@.subrange(lo as int, v@.len() as int)) == drop_trailing_quotes(
                v@.subrange(lo as int, hi as int),
            ),
        decreases hi,
    {
        assert(v@.subrange(lo as int, hi as int).drop_last() =~= v@.subrange(lo as int, hi - 1));
        hi -= 1;
    }
    slice_of(v, lo, hi)
}

/// `v`, in ASCII lowercase, is `keyword`.
fn is_keyword(v: &Vec<char>, keyword: &str) -> (r: bool)
    ensures
        r == (lower_seq(v@) == keyword@),
{
    let k = chars_of(keyword);
    if k.len() != v.len() {
        assert(lower_seq(v@).len() != keyword@.len());
        return false;
    }
    let mut i: usize = 0;
    while i < v.len()
        invariant
            i <= v@.len() == k@.len(),
            k@ == keyword@,
            forall|j: int| 0 <= j < i ==> crate::text::lower(v@[j]) == k@[j],
        decreases v@.len() - i,
    {
        let c = v[i];
        let l = if 'A' <= c && c <= 'Z' {
            ((c as u32) + 32) as u8 as char
        } else {
            c
        };
        proof {
            if 'A' <= c && c <= 'Z' {
                assert(((c as u32) + 32) as u8 as char == crate::text::lower(c));
            }
        }
        if l != k[i] {
            assert(lower_seq(v@)[i as int] != keyword@[i as int]);
            return false;
        }
        i += 1;
    }
    assert(lower_seq(v@) =~= keyword@);
    true
}

/// The keyword and value of a configuration line, if it has both.
fn directive_of(line: &Vec<char>) -> (r: Option<(Vec<char>, Vec<char>)>)
    ensures
        match r {
            Some((k, v)) => directive(line@) == Some((k@, v@)),
            None => directive(line@) is None,
        },
{
    let t = trim_vec(line);
    if t.len() == 0 || t[0] == '#' {
        return None;
    }
    let eq = find_in(&t, 0, t.len(), '=');
    assert(t@.subrange(0, t@.len() as int) =~= t@);
    let split = if eq < t.len() {
        eq
    } else {
        find_ws(&t)
    };
    if split == t.len() {
        return None;
    }
    let key = trim_vec(&slice_of(&t, 0, split));
    let raw = trim_vec(&slice_of(&t, split + 1, t.len()));
    let value = trim_vec(&drop_quotes_vec(&raw));
    Some((key, value))
}

/// The home directory of the user, from `dirs::home_dir`; it depends on the
/// environment, so nothing is stated of it.
#[verifier::external_body]
pub(crate) fn home_dir() -> (r: Option<String>) {
    dirs::home_dir().map(|p| p.to_string_lossy().into_owned())
}

/// Resolves a leading `~/` against the given home directory.
pub fn expand_home_dir_in(path: &str, home: &Option<String>) -> (r: String)
    ensures
        r@ == expand_home(path@, opt_view(*home)),
{
    match home {
        None => owned(path),
        Some(h) => {
            let v = chars_of(path);
            if v.len() >= 2 && v[0] == '~' && v[1] == '/' {
                assert(v@.subrange(0, 2) =~= "~/"@) by {
                    reveal_strlit("~/");
                }
                let rest = string_from(&v, 2, v.len());
                let rv = chars_of(rest.as_str());
                if rv.len() > 0 && rv[0] == '/' {
                    rest
                } else {
                    crate::store::join_path(h.as_str(), rest.as_str())
                }
            } else {
                proof {
                    reveal_strlit("~/");
                    if starts_with(path@, "~/"@) {
                        assert(path@[0] == "~/"@[0]);
                        assert(path@[1] == "~/"@[1]);
                    }
                }
                owned(path)
            }
        },
    }
}

/// Resolves a leading `~/` against the user's home directory, where it is known.
pub fn expand_home_dir(path: &str) -> (r: String)
    ensures
        !starts_with(path@, "~/"@) ==> r@ == path@,
        r@ == expand_home(path@, None) || exists|home: Seq<char>| r@ == expand_home(path@, Some(home)),
{
    let home = home_dir();
    let r = expand_home_dir_in(path, &home);
    proof {
        if let Some(h) = home {
            assert(r@ == expand_home(path@, Some(h@)));
        }
    }
    r
}

spec fn state_view(current: Option<SshHostConfig>, entries: Seq<ConfigEntry>) -> ParseState {
    ParseState {
        current: match current {
            Some(h) => Some(h@),
            None => None,
        },
        entries: entries.map_values(|e: ConfigEntry| e@),
    }
}

fn apply_line_exec(
    current: Option<SshHostConfig>,
    entries: &mut Vec<ConfigEntry>,
    line: &Vec<char>,
    home: &Option<String>,
) -> (r: Option<SshHostConfig>)
    ensures
        state_view(r, final(entries)@) == apply_line(
            state_view(current, old(entries)@),
            line@,
            opt_view(*home),
        ),
{
    let ghost before = state_view(current, entries@);
    match directive_of(line) {
        None => current,
        Some((key, value)) => {
            let value_text = string_from(&value, 0, value.len());
            assert(value@.subrange(0, value@.len() as int) =~= value@);
            if is_keyword(&key, "host") {
                match current {
                    Some(h) => {
                        entries.push(ConfigEntry::Host(h));
                    },
                    None => {},
                }
                let w = find_ws(&value);
                let name = string_from(&value, 0, w);
                proof {
                    if w == value@.len() {
                        assert(value@.subrange(0, w as int) =~= value@);
                    }
                }
                let r = Some(
                    SshHostConfig { host: name, host_name: None, user: None, port: None, identity_file: None },
                );
                assert(state_view(r, entries@).entries =~= apply_line(before, line@, opt_view(*home)).entries);
                r
            } else if is_keyword(&key, "include") {
                let pattern = expand_home_dir_in(value_text.as_str(), home);
                entries.push(ConfigEntry::Include(pattern));
                assert(state_view(current, entries@).entries =~= apply_line(before, line@, opt_view(*home)).entries);
                current
            } else {
                match current {
                    None => None,
                    Some(h) => {
                        if is_keyword(&key, "hostname") {
                            Some(SshHostConfig { host_name: Some(value_text), ..h })
                        } else if is_keyword(&key, "user") {
                            Some(SshHostConfig { user: Some(value_text), ..h })
                        } else if is_keyword(&key, "port") {
                            match parse_port(&value, 0, value.len()) {
                                Some(p) => Some(SshHostConfig { port: Some(p), ..h }),
                                None => Some(h),
                            }
                        } else if is_keyword(&key, "identityfile") {
                            let path = expand_home_dir_in(value_text.as_str(), home);
                            Some(SshHostConfig { identity_file: Some(path), ..h })
                        } else {
                            Some(h)
                        }
                    },
                }
            }
        },
    }
}

/// The entries of a configuration text, given the home directory that `~/` stands for.
pub fn parse_config_entries(content: &str, home: &Option<String>) -> (r: Vec<ConfigEntry>)
    ensures
        r@.map_values(|e: ConfigEntry| e@) == config_entries(content@, opt_view(*home)),
{
    let v = chars_of(content);
    let mut current: Option<SshHostConfig> = None;
    let mut entries: Vec<ConfigEntry> = Vec::new();
    let mut lo: usize = 0;
    let ghost initial = ParseState { current: None, entries: Seq::empty() };
    assert(state_view(current, entries@).entries =~= initial.entries);
    assert(v@.subrange(0, v@.len() as int) =~= v@);
    loop
        invariant_except_break
            scan(state_view(current, entries@), v@.subrange(lo as int, v@.len() as int), opt_view(*home))
                == scan(initial, v@, opt_view(*home)),
        invariant
            lo <= v@.len(),
            v@ == content@,
        ensures
            state_view(current, entries@) == scan(initial, v@, opt_view(*home)),
        decreases v@.len() - lo,
    {
        let hi = find_in(&v, lo, v.len(), '\n');
        let line = slice_of(&v, lo, hi);
        let ghost rest = v@.subrange(lo as int, v@.len() as int);
        assert(rest.subrange(0, (hi - lo) as int) =~= line@);
        current = apply_line_exec(current, &mut entries, &line, home);
        if hi == v.len() {
            assert(line@ =~= rest);
            break;
        }
        assert(rest.subrange(hi - lo + 1, rest.len() as int) =~= v@.subrange(hi + 1, v@.len() as int));
        lo = hi + 1;
    }
    match current {
        Some(h) => {
            entries.push(ConfigEntry::Host(h));
        },
        None => {},
    }
    assert(entries@.map_values(|e: ConfigEntry| e@) =~= config_entries(content@, opt_view(*home)));
    entries
}

/// The hosts worth offering: those with a name other than the catch-all `*`.
pub open spec fn visible(h: HostView) -> bool {
    h.host.len() > 0 && h.host != "*"@
}

/// Keeps the hosts worth offering, in order.
pub fn visible_hosts(hosts: &Vec<SshHostConfig>) -> (r: Vec<SshHostConfig>)
    ensures
        r@.map_values(|h: SshHostConfig| h@) == hosts@.map_values(|h: SshHostConfig| h@).filter(
            |h: HostView| visible(h),
        ),
{
    let ghost all = hosts@.map_values(|h: SshHostConfig| h@);
    let mut r: Vec<SshHostConfig> = Vec::new();
    let mut i: usize = 0;
    let star = owned("*");
    proof {
        reveal_strlit("*");
    }
    assert(all.subrange(0, 0) =~= Seq::<HostView>::empty());
    while i < hosts.len()
        invariant
            i <= hosts@.len(),
            all == hosts@.map_values(|h: SshHostConfig| h@),
            star@ == "*"@,
            r@.map_values(|h: SshHostConfig| h@) == all.subrange(0, i as int).filter(|h: HostView| visible(h)),
        decreases hosts@.len() - i,
    {
        let h = &hosts[i];
        let ghost hv = h@;
        assert(hv == all[i as int]);
        assert(all.subrange(0, i + 1) =~= all.subrange(0, i as int).push(hv));
        proof {
            all.subrange(0, i as int).lemma_filter_push(hv, |h: HostView| visible(h));
        }
        let name = chars_of(h.host.as_str());
        if name.len() > 0 && !(h.host == star) {
            r.push(h.clone());
            assert(r@.map_values(|h: SshHostConfig| h@) =~= all.subrange(0, i + 1).filter(|h: HostView| visible(h)));
        } else {
            assert(r@.map_values(|h: SshHostConfig| h@) =~= all.subrange(0, i + 1).filter(|h: HostView| visible(h)));
        }
        i += 1;
    }
    assert(all.subrange(0, all.len() as int) =~= all);
    r
}

/// What a character of an include file name pattern becomes in a regular
/// expression: `*` any run, `?` any character, `.` itself; the rest stands for
/// itself as the regular expression reads it.
pub open spec fn glob_piece(c: char) -> Seq<char> {
    if c == '.' {
        seq!['\\', '.']
    } else if c == '*' {
        seq!['.', '*']
    } else if c == '?' {
        seq!['.']
    } else {
        seq![c]
    }
}

/// The regular expression body of a file name pattern, piece by piece.
pub open spec fn glob_body(p: Seq<char>) -> Seq<char>
    decreases p.len(),
{
    if p.len() == 0 {
        Seq::empty()
    } else {
        glob_body(p.drop_last()) + glob_piece(p.last())
    }
}

/// The regular expression that the names of included files must match in full.
pub open spec fn include_regex(p: Seq<char>) -> Seq<char> {
    "^"@ + glob_body(p) + "$"@
}

/// A file name pattern with wildcards, which selects files from a directory.
pub open spec fn is_glob(p: Seq<char>) -> bool {
    p.contains('*') || p.contains('?')
}

/// Whether an include file name pattern holds a wildcard.
pub fn has_wildcard(pattern: &str) -> (r: bool)
    ensures
        r == is_glob(pattern@),
{
    let v = chars_of(pattern);
    let mut i: usize = 0;
    while i < v.len()
        invariant
            i <= v@.len(),
            v@ == pattern@,
            forall|j: int| 0 <= j < i ==> v@[j] != '*' && v@[j] != '?',
        decreases v@.len() - i,
    {
        if v[i] == '*' || v[i] == '?' {
            assert(v@[i as int] == '*' ==> pattern@.contains('*'));
            assert(v@[i as int] == '?' ==> pattern@.contains('?'));
            return true;
        }
        i += 1;
    }
    false
}

/// The regular expression for an include file name pattern.
pub fn include_regex_text(pattern: &str) -> (r: String)
    ensures
        r@ == include_regex(pattern@),
{
    let v = chars_of(pattern);
    let mut body = String::new();
    let mut i: usize = 0;
    assert(v@.subrange(0, 0) =~= Seq::<char>::empty());
    while i < v.len()
        invariant
            i <= v@.len(),
            v@ == pattern@,
            body@ == glob_body(v@.subrange(0, i as int)),
        decreases v@.len() - i,
    {
        let c = v[i];
        if c == '.' {
            crate::text::push_char(&mut body, '\\');
            crate::text::push_char(&mut body, '.');
        } else if c == '*' {
            crate::text::push_char(&mut body, '.');
            crate::text::push_char(&mut body, '*');
        } else if c == '?' {
            crate::text::push_char(&mut body, '.');
        } else {
            crate::text::push_char(&mut body, c);
        }
        assert(v@.subrange(0, i + 1).drop_last() =~= v@.subrange(0, i as int));
        i += 1;
        assert(body@ =~= glob_body(v@.subrange(0, i as int)));
    }
    assert(v@.subrange(0, v@.len() as int) =~= v@);
    let mut r = owned("^");
    push_str(&mut r, body.as_str());
    push_str(&mut r, "$");
    r
}

#[verifier::external_type_specification]
#[verifier::external_body]
pub struct ExRegex(regex::Regex);

/// A compiled regular expression together with its source text.
pub struct CompiledRegex {
    source: String,
    regex: regex::Regex,
}

/// What `regex::Regex::new` makes of a pattern: `None` when it compiles, else the
/// message of its error.
pub uninterp spec fn regex_compile_error(pattern: Seq<char>) -> Option<Seq<char>>;

/// Whether `regex::Regex::is_match` finds the compiled pattern in the text.
pub uninterp spec fn regex_finds(pattern: Seq<char>, text: Seq<char>) -> bool;

/// `regex::Regex::new`: compiles the pattern, or gives the message of its error.
#[verifier::external_body]
fn compile_regex(pattern: &str) -> (r: Result<CompiledRegex, String>)
    ensures
        r is Ok <==> regex_compile_error(pattern@) is None,
        r is Ok ==> r->Ok_0.source@ == pattern@,
        r is Err ==> regex_compile_error(pattern@) == Some(r->Err_0@),
{
    match regex::Regex::new(pattern) {
        Ok(regex) => Ok(CompiledRegex { source: pattern.to_string(), regex }),
        Err(e) => Err(e.to_string()),
    }
}

/// `regex::Regex::is_match`: whether the pattern matches somewhere in the text.
#[verifier::external_body]
fn regex_is_match(re: &CompiledRegex, text: &str) -> (r: bool)
    ensures
        r == regex_finds(re.source@, text@),
{
    re.regex.is_match(text)
}

/// The files an include pattern selects: of the given file names, those that the
/// pattern's regular expression matches, in order; an error where that expression
/// does not compile.
pub open spec fn selected_files(pattern: Seq<char>, names: Seq<Seq<char>>) -> Result<Seq<Seq<char>>, Seq<char>> {
    match regex_compile_error(include_regex(pattern)) {
        Some(e) => Err("Invalid regex pattern: "@ + e),
        None => Ok(names.filter(|n: Seq<char>| regex_finds(include_regex(pattern), n))),
    }
}

/// The names of the files in a directory that an include file name pattern selects.
pub fn matching_include_files(pattern: &str, names: &Vec<String>) -> (r: Result<Vec<String>, String>)
    ensures
        match r {
            Ok(v) => selected_files(pattern@, names@.map_values(|n: String| n@)) == Ok::<
                Seq<Seq<char>>,
                Seq<char>,
            >(v@.map_values(|n: String| n@)),
            Err(e) => selected_files(pattern@, names@.map_values(|n: String| n@)) == Err::<
                Seq<Seq<char>>,
                Seq<char>,
            >(e@),
        },
{
    let source = include_regex_text(pattern);
    let re = match compile_regex(source.as_str()) {
        Ok(re) => re,
        Err(e) => {
            let mut msg = owned("Invalid regex pattern: ");
            push_str(&mut msg, e.as_str());
            return Err(msg);
        },
    };
    let ghost all = names@.map_values(|n: String| n@);
    let ghost pred = |n: Seq<char>| regex_finds(include_regex(pattern@), n);
    let mut r: Vec<String> = Vec::new();
    let mut i: usize = 0;
    assert(all.subrange(0, 0) =~= Seq::<Seq<char>>::empty());
    while i < names.len()
        invariant
            i <= names@.len(),
            all == names@.map_values(|n: String| n@),
            re.source@ == include_regex(pattern@),
            pred == (|n: Seq<char>| regex_finds(include_regex(pattern@), n)),
            r@.map_values(|n: String| n@) == all.subrange(0, i as int).filter(pred),
        decreases names@.len() - i,
    {
        let ghost nv = names@[i as int]@;
        assert(all.subrange(0, i + 1) =~= all.subrange(0, i as int).push(nv));
        proof {
            all.subrange(0, i as int).lemma_filter_push(nv, pred);
        }
        if regex_is_match(&re, names[i].as_str()) {
            r.push(names[i].clone());
        }
        assert(r@.map_values(|n: String| n@) =~= all.subrange(0, i + 1).filter(pred));
        i += 1;
    }
    assert(all.subrange(0, all.len() as int) =~= all);
    Ok(r)
}


proof fn lemma_word_is_clean(w: Seq<char>)
    requires
        w.len() > 0,
        !is_ws(w[0]),
        !is_ws(w.last()),
        w[0] != '"',
        w.last() != '"',
    ensures
        trim(w) == w,
        clean_value(w) == w,
{
    assert(crate::text::trim_start(w) == w);
    assert(crate::text::trim_end(w) == w);
    assert(drop_leading_quotes(w) == w);
    assert(drop_trailing_quotes(w) == w);
}

/// A word of a configuration line: no whitespace, `=` or double quote in it.
pub open spec fn plain_word(w: Seq<char>) -> bool {
    forall|i: int| 0 <= i < w.len() ==> !is_ws(#[trigger] w[i]) && w[i] != '=' && w[i] != '"'
}

/// Reading an `Include` line resolves a leading `~/` against the home directory: the
/// configuration made of the line `Include ~/<rest>` yields exactly one entry, the
/// include of `<home>/<rest>`; without a home directory the pattern is kept as it
/// is written. (`rest` is one word that does not start with `/`; the home directory
/// does not end in `/`.)
pub proof fn lemma_include_resolves_home(rest: Seq<char>, home: Seq<char>)
    requires
        rest.len() > 0,
        rest[0] != '/',
        plain_word(rest),
        home.len() > 0,
        home.last() != '/',
    ensures
        config_entries("Include ~/"@ + rest + "\n"@, Some(home)) == seq![EntryView::Include(home + "/"@ + rest)],
        config_entries("Include ~/"@ + rest + "\n"@, None) == seq![EntryView::Include("~/"@ + rest)],
{
    reveal_strlit("Include ~/");
    reveal_strlit("Include");
    reveal_strlit("include");
    reveal_strlit("host");
    reveal_strlit("\n");
    reveal_strlit("~/");
    reveal_strlit("/");
    let prefix = "Include ~/"@;
    let line = prefix + rest;
    let text = line + "\n"@;
    let n = line.len();
    assert(prefix.len() == 10);
    assert forall|j: int| 0 <= j < n implies !is_ws(#[trigger] line[j]) || j == 7 by {
        if j >= 10 {
            assert(line[j] == rest[j - 10]);
        }
    }
    assert forall|j: int| 0 <= j < n implies #[trigger] line[j] != '=' && line[j] != '\n' by {
        if j >= 10 {
            assert(line[j] == rest[j - 10]);
        }
    }
    // the text is one line followed by a line feed
    assert forall|j: int| 0 <= j < n implies #[trigger] text[j] != '\n' by {
        assert(text[j] == line[j]);
    }
    lemma_index_of_exact(text, '\n', n as int);
    assert(text.subrange(0, n as int) =~= line);
    assert(text.subrange(n + 1 as int, text.len() as int) =~= Seq::<char>::empty());
    assert(trim(Seq::<char>::empty()) =~= Seq::<char>::empty());
    assert(directive(Seq::<char>::empty()) is None);
    // the line splits into `Include` and `~/<rest>`
    assert(line.last() == rest.last());
    assert(!is_ws(rest.last())) by {
        assert(rest.last() == rest[rest.len() - 1]);
    }
    assert(trim(line) == line) by {
        assert(crate::text::trim_start(line) == line);
        assert(crate::text::trim_end(line) == line);
    }
    lemma_index_of_exact(line, '=', n as int);
    lemma_index_of_ws_exact(line, 7);
    let key = line.subrange(0, 7);
    let value = line.subrange(8, n as int);
    assert(key =~= "Include"@);
    assert(value =~= "~/"@ + rest);
    lemma_word_is_clean(key);
    assert(value[0] == '~');
    assert(value.last() == rest.last());
    assert(rest.last() != '"') by {
        assert(rest.last() == rest[rest.len() - 1]);
    }
    lemma_word_is_clean(value);
    assert(directive(line) == Some((key, value)));
    assert(lower_seq(key) =~= "include"@);
    assert(lower_seq(key) != "host"@) by {
        assert(lower_seq(key).len() != "host"@.len());
    }
    assert(starts_with(value, "~/"@)) by {
        assert(value.subrange(0, 2) =~= "~/"@);
    }
    assert(value.subrange(2, value.len() as int) =~= rest);
    assert(crate::store::path_join(home, rest) =~= home + "/"@ + rest);
    assert(expand_home(value, Some(home)) == home + "/"@ + rest);
    assert(expand_home(value, None) == "~/"@ + rest);
    let init = ParseState { current: None, entries: Seq::empty() };
    let empty = Seq::<char>::empty();
    assert(index_of(empty, '\n') is None);
    let with_home = apply_line(init, line, Some(home));
    assert(with_home.current is None);
    assert(with_home.entries =~= seq![EntryView::Include(home + "/"@ + rest)]);
    assert(apply_line(with_home, empty, Some(home)) == with_home);
    assert(scan(with_home, empty, Some(home)) == with_home);
    assert(scan(init, text, Some(home)) == scan(with_home, empty, Some(home)));
    let without = apply_line(init, line, None);
    assert(without.current is None);
    assert(without.entries =~= seq![EntryView::Include("~/"@ + rest)]);
    assert(apply_line(without, empty, None) == without);
    assert(scan(without, empty, None) == without);
    assert(scan(init, text, None) == scan(without, empty, None));
}

} // verus!
