//! The activity log: its records and which records a size-limited log keeps.

use vstd::prelude::*;
use crate::known_hosts::bytes_of;
use crate::store::{ConfigStore, path_join};
use crate::text::{blank, is_blank};

verus! {

/// The most records the log keeps.
pub const MAX_EVENT_COUNT: usize = 1000;

/// The most bytes the log file keeps (one record per line, newline included).
pub const MAX_EVENT_FILE_BYTES: u64 = 2097152;

/// What happened to a tunnel.
#[derive(Debug, Clone, Copy, PartialEq, Eq, Structural)]
pub enum EventType {
    Created,
    Updated,
    Connecting,
    Started,
    Stopped,
    Restarted,
    Reconnected,
    Failed,
    Deleted,
}

/// One record of the activity log.
#[derive(Debug, PartialEq, Eq)]
pub struct LogEvent {
    pub id: String,
    pub session_id: Option<String>,
    /// The moment of the record, as RFC 3339 text in UTC.
    pub timestamp: String,
    pub tunnel_id: Option<String>,
    pub tunnel_name: Option<String>,
    pub event_type: EventType,
    pub message: String,
}

impl Clone for LogEvent {
    fn clone(&self) -> (r: Self)
        ensures
            r == *self,
    {
        LogEvent {
            id: self.id.clone(),
            session_id: crate::config::clone_opt_string(&self.session_id),
            timestamp: self.timestamp.clone(),
            tunnel_id: crate::config::clone_opt_string(&self.tunnel_id),
            tunnel_name: crate::config::clone_opt_string(&self.tunnel_name),
            event_type: self.event_type,
            message: self.message.clone(),
        }
    }
}

/// A lowercase hexadecimal digit.
pub open spec fn lower_hex_digit(c: char) -> bool {
    ('0' <= c && c <= '9') || ('a' <= c && c <= 'f')
}

/// A version-4 UUID in hyphenated lowercase text: 36 characters, hyphens at 8, 13,
/// 18 and 23, lowercase hexadecimal digits elsewhere, version digit `4` at 14 and a
/// variant digit of `8`, `9`, `a` or `b` at 19.
pub open spec fn uuid_v4_text(s: Seq<char>) -> bool {
    &&& s.len() == 36
    &&& forall|i: int|
        0 <= i < 36 ==> if i == 8 || i == 13 || i == 18 || i == 23 {
            s[i] == '-'
        } else {
            lower_hex_digit(#[trigger] s[i])
        }
    &&& s[14] == '4'
    &&& (s[19] == '8' || s[19] == '9' || s[19] == 'a' || s[19] == 'b')
}

/// A fresh random UUID from `uuid::Uuid::new_v4`, as its 128-bit value and in its
/// hyphenated text form (`Uuid`'s `Display`). The value is random; of the text it is
/// stated that it is a version-4 UUID in hyphenated lowercase form (`new_v4` sets the
/// version and variant bits, and `Display` writes the hyphenated lowercase digits).
/// How the value and the text relate is not stated.
#[verifier::external_body]
pub(crate) fn new_uuid() -> (r: (u128, String))
    ensures
        uuid_v4_text(r.1@),
{
    let id = uuid::Uuid::new_v4();
    (id.as_u128(), id.to_string())
}

/// The current time, from `chrono::Utc::now`, as RFC 3339 text. It depends on the
/// clock; nothing is stated of it.
#[verifier::external_body]
fn now_timestamp() -> (r: String) {
    chrono::Utc::now().to_rfc3339()
}

/// Creates activity records; the records are kept in the store's event file.
pub struct EventLogger {
    store: ConfigStore,
}

impl EventLogger {
    pub closed spec fn store_base(self) -> Seq<char> {
        self.store.base()
    }

    /// A logger for the default configuration store.
    pub fn new() -> (r: Self)
        ensures
            exists|dir: Option<Seq<char>>| r.store_base() == #[trigger] crate::store::store_dir(dir),
    {
        EventLogger { store: ConfigStore::new() }
    }

    /// A logger for the given store.
    pub fn with_store(store: ConfigStore) -> (r: Self)
        ensures
            r.store_base() == store.base(),
    {
        EventLogger { store }
    }

    /// The file the records are kept in.
    pub fn events_path(&self) -> (r: String)
        ensures
            r@ == path_join(self.store_base(), "events.json"@),
    {
        self.store.get_events_path()
    }

    /// A new record with a fresh id and the current time.
    pub fn new_event(
        &self,
        session_id: Option<String>,
        tunnel_id: Option<String>,
        tunnel_name: Option<String>,
        event_type: EventType,
        message: String,
    ) -> (r: LogEvent)
        ensures
            r.session_id == session_id,
            r.tunnel_id == tunnel_id,
            r.tunnel_name == tunnel_name,
            r.event_type == event_type,
            r.message == message,
            uuid_v4_text(r.id@),
    {
        LogEvent {
            id: new_uuid().1,
            session_id,
            timestamp: now_timestamp(),
            tunnel_id,
            tunnel_name,
            event_type,
            message,
        }
    }
}

/// The lines that are not blank, in order.
pub open spec fn nonblank(lines: Seq<String>) -> Seq<String>
    decreases lines.len(),
{
    if lines.len() == 0 {
        Seq::empty()
    } else if blank(lines.last()@) {
        nonblank(lines.drop_last())
    } else {
        nonblank(lines.drop_last()).push(lines.last())
    }
}

/// The bytes a line takes in the file, newline included.
pub open spec fn line_cost(line: String) -> int {
    bytes_of(line@).len() as int + 1
}

/// The bytes a run of lines takes in the file.
pub open spec fn total_cost(lines: Seq<String>) -> int
    decreases lines.len(),
{
    if lines.len() == 0 {
        0
    } else {
        total_cost(lines.drop_last()) + line_cost(lines.last())
    }
}

/// A run of lines is within both limits of the log.
pub open spec fn within_limits(lines: Seq<String>) -> bool {
    lines.len() <= MAX_EVENT_COUNT && total_cost(lines) <= MAX_EVENT_FILE_BYTES
}

/// `kept` is what a size-limited log keeps of `lines`: the longest run of the
/// newest non-blank lines within both limits, and at least the newest line.
pub open spec fn kept_lines(lines: Seq<String>, kept: Seq<String>) -> bool {
    let n = nonblank(lines);
    &&& kept.len() <= n.len()
    &&& kept == n.subrange(n.len() - kept.len(), n.len() as int)
    &&& (n.len() > 0 ==> kept.len() > 0)
    &&& (kept.len() > 1 ==> within_limits(kept))
    &&& forall|s: int| 0 <= s < n.len() - kept.len() ==> !within_limits(n.subrange(s, n.len() as int))
}

proof fn lemma_total_front(s: Seq<String>)
    requires
        s.len() > 0,
    ensures
        total_cost(s) == line_cost(s[0]) + total_cost(s.drop_first()),
    decreases s.len(),
{
    if s.len() > 1 {
        lemma_total_front(s.drop_last());
        assert(s.drop_last().drop_first() == s.drop_first().drop_last());
        assert(s.drop_last()[0] == s[0]);
        assert(s.drop_first().last() == s.last());
        assert(total_cost(s.drop_first()) == total_cost(s.drop_first().drop_last()) + line_cost(s.drop_first().last()));
        assert(total_cost(s) == total_cost(s.drop_last()) + line_cost(s.last()));
        assert(total_cost(s.drop_last()) == line_cost(s[0]) + total_cost(s.drop_last().drop_first()));
    } else {
        assert(s.drop_first().len() == 0);
        assert(s.drop_last().len() == 0);
        assert(total_cost(s.drop_first()) == 0);
        assert(total_cost(s.drop_last()) == 0);
        assert(s.last() == s[0]);
        assert(total_cost(s) == total_cost(s.drop_last()) + line_cost(s.last()));
    }
}

proof fn lemma_cost_positive(s: Seq<String>)
    ensures
        total_cost(s) >= s.len(),
    decreases s.len(),
{
    if s.len() > 0 {
        lemma_cost_positive(s.drop_last());
    }
}

/// Shrinking a run from either end keeps it within the limits.
proof fn lemma_limits_shrink(n: Seq<String>, s: int, k: int)
    requires
        0 <= s < k <= n.len(),
        within_limits(n.subrange(s, k)),
    ensures
        s + 1 <= k ==> within_limits(n.subrange(s + 1, k)),
        within_limits(n.subrange(s, k - 1)),
{
    let w = n.subrange(s, k);
    lemma_total_front(w);
    assert(w.drop_first() == n.subrange(s + 1, k));
    assert(w.drop_last() == n.subrange(s, k - 1));
    lemma_cost_positive(w.drop_first());
    lemma_cost_positive(w.drop_last());
}

/// Keeps the newest non-blank lines of the log within its limits (see `kept_lines`).
pub fn retain_latest_lines(lines: Vec<String>) -> (r: Vec<String>)
    ensures
        kept_lines(lines@, r@),
{
    let mut n: Vec<String> = Vec::new();
    let mut i: usize = 0;
    while i < lines.len()
        invariant
            i <= lines@.len(),
            n@ == nonblank(lines@.subrange(0, i as int)),
        decreases lines@.len() - i,
    {
        proof {
            let sub = lines@.subrange(0, i + 1);
            assert(sub.drop_last() == lines@.subrange(0, i as int));
        }
        if !is_blank(lines[i].as_str()) {
            n.push(lines[i].clone());
        }
        i += 1;
    }
    assert(lines@.subrange(0, lines@.len() as int) == lines@);
    let ghost all = n@;
    // The kept run is n[start..k]; `retained` is its cost.
    let mut start: usize = 0;
    let mut retained: u128 = 0;
    let mut k: usize = 0;
    while k < n.len()
        invariant
            n@ == all,
            start <= k <= n@.len(),
            retained == total_cost(all.subrange(start as int, k as int)),
            k > 0 ==> start < k,
            (k - start > 1) ==> within_limits(all.subrange(start as int, k as int)),
            forall|s: int| 0 <= s < start ==> !within_limits(#[trigger] all.subrange(s, k as int)),
            retained <= 18446744073709551616u128,
        decreases n@.len() - k,
    {
        let cost = (n[k].as_str().as_bytes().len() as u128) + 1;
        assert(cost == line_cost(all[k as int]));
        let ghost old_start = start;
        proof {
            assert forall|s: int| 0 <= s < start implies !within_limits(#[trigger] all.subrange(s, k + 1)) by {
                if within_limits(all.subrange(s, k + 1)) {
                    lemma_limits_shrink(all, s, k + 1);
                }
            }
        }
        // Drop the oldest lines while the new line would not fit.
        while start < k && (k - start >= MAX_EVENT_COUNT || retained + cost > MAX_EVENT_FILE_BYTES as u128)
            invariant
                n@ == all,
                old_start <= start <= k < n@.len(),
                cost == line_cost(all[k as int]),
                retained == total_cost(all.subrange(start as int, k as int)),
                retained <= 18446744073709551616u128,
                cost <= 18446744073709551616u128,
                forall|s: int| 0 <= s < start ==> !within_limits(#[trigger] all.subrange(s, k + 1)),
                forall|s: int| 0 <= s < old_start ==> !within_limits(#[trigger] all.subrange(s, k as int)),
            decreases k - start,
        {
            proof {
                let w = all.subrange(start as int, k + 1);
                let prev = all.subrange(start as int, k as int);
                assert(w.drop_last() == prev);
                assert(w.last() == all[k as int]);
                assert(!within_limits(w));
                lemma_total_front(prev);
                assert(prev.drop_first() == all.subrange(start + 1, k as int));
                lemma_cost_positive(prev.drop_first());
                assert(prev[0] == all[start as int]);
            }
            let front_cost = (n[start].as_str().as_bytes().len() as u128) + 1;
            assert(front_cost == line_cost(all[start as int]));
            retained = retained - front_cost;
            start += 1;
        }
        proof {
            let w = all.subrange(start as int, k + 1);
            assert(w.drop_last() == all.subrange(start as int, k as int));
            assert(w.last() == all[k as int]);
            if start < k {
                assert(within_limits(w));
            } else {
                assert(all.subrange(start as int, k as int).len() == 0);
            }
        }
        retained = retained + cost;
        k += 1;
    }
    let mut r: Vec<String> = Vec::new();
    let mut j = start;
    while j < n.len()
        invariant
            n@ == all,
            start <= j <= n@.len(),
            r@ == all.subrange(start as int, j as int),
        decreases n@.len() - j,
    {
        r.push(n[j].clone());
        assert(all.subrange(start as int, j + 1) == all.subrange(start as int, j as int).push(all[j as int]));
        j += 1;
    }
    r
}

proof fn lemma_nonblank_lines(lines: Seq<String>)
    ensures
        forall|i: int| 0 <= i < nonblank(lines).len() ==> !blank(#[trigger] nonblank(lines)[i]@),
    decreases lines.len(),
{
    if lines.len() > 0 {
        let prev = nonblank(lines.drop_last());
        lemma_nonblank_lines(lines.drop_last());
        if !blank(lines.last()@) {
            assert forall|i: int| 0 <= i < nonblank(lines).len() implies !blank(#[trigger] nonblank(lines)[i]@) by {
                if i < prev.len() {
                    assert(nonblank(lines)[i] == prev[i]);
                }
            }
        }
    }
}

proof fn lemma_nonblank_fixed(lines: Seq<String>)
    requires
        forall|i: int| 0 <= i < lines.len() ==> !blank(#[trigger] lines[i]@),
    ensures
        nonblank(lines) == lines,
    decreases lines.len(),
{
    if lines.len() > 0 {
        assert(!blank(lines[lines.len() - 1]@));
        assert forall|i: int| 0 <= i < lines.drop_last().len() implies !blank(#[trigger] lines.drop_last()[i]@) by {
            assert(lines.drop_last()[i] == lines[i]);
        }
        lemma_nonblank_fixed(lines.drop_last());
        assert(lines.drop_last().push(lines.last()) =~= lines);
    }
}

/// Compacting the log a second time changes nothing: the lines one compaction keeps
/// are all kept by the next, so reading a compacted file shows the same records.
pub proof fn lemma_retained_lines_are_stable(lines: Seq<String>, once: Seq<String>, twice: Seq<String>)
    requires
        kept_lines(lines, once),
        kept_lines(once, twice),
    ensures
        twice == once,
{
    let n = nonblank(lines);
    lemma_nonblank_lines(lines);
    assert forall|i: int| 0 <= i < once.len() implies !blank(#[trigger] once[i]@) by {
        assert(once[i] == n[n.len() - once.len() + i]);
    }
    lemma_nonblank_fixed(once);
    if twice.len() < once.len() && once.len() > 1 {
        assert(once.subrange(0, once.len() as int) =~= once);
        assert(!within_limits(once.subrange(0, once.len() as int)));
    }
    assert(twice =~= once);
}

/// After an append, the event file is compacted once it has outgrown its byte limit.
pub fn needs_compaction(file_len: u64) -> (r: bool)
    ensures
        r == (file_len > MAX_EVENT_FILE_BYTES),
{
    file_len > MAX_EVENT_FILE_BYTES
}

/// Appends a record to an in-memory log that keeps its newest thousand records.
pub fn push_capped(events: &mut Vec<LogEvent>, event: LogEvent)
    requires
        old(events)@.len() <= MAX_EVENT_COUNT,
    ensures
        final(events)@ == if old(events)@.len() < MAX_EVENT_COUNT {
            old(events)@.push(event)
        } else {
            old(events)@.push(event).drop_first()
        },
        final(events)@.len() <= MAX_EVENT_COUNT,
{
    events.push(event);
    if events.len() > MAX_EVENT_COUNT {
        events.remove(0);
    }
}

/// The records at positions `lo..hi` counted from the newest (position 0), newest
/// first; positions past the oldest record are left out.
pub fn newest_in(events: &Vec<LogEvent>, lo: usize, hi: usize) -> (r: Vec<LogEvent>)
    ensures
        r@.len() == (if lo < hi && lo < events@.len() {
            (if hi <= events@.len() {
                hi as int
            } else {
                events@.len() as int
            }) - lo
        } else {
            0int
        }),
        forall|i: int| 0 <= i < r@.len() ==> #[trigger] r@[i] == events@[events@.len() - 1 - (lo + i)],
{
    let mut r: Vec<LogEvent> = Vec::new();
    let count = events.len();
    let end = if hi <= count {
        hi
    } else {
        count
    };
    let mut index = lo;
    while index < end
        invariant
            lo <= index,
            count == events@.len(),
            end <= count,
            end == (if hi <= count {
                hi
            } else {
                count
            }),
            lo <= end ==> index <= end,
            lo > end ==> index == lo,
            r@.len() == index - lo,
            forall|i: int| 0 <= i < r@.len() ==> #[trigger] r@[i] == events@[events@.len() - 1 - (lo + i)],
        decreases end - index,
    {
        r.push(events[count - 1 - index].clone());
        index += 1;
    }
    r
}

} // verus!
