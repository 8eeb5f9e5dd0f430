//! The in-memory application log: a bounded buffer of the most recent
//! entries, and the level rules that decide what reaches it.

use vstd::prelude::*;
use crate::text::{chars_of, prefix, starts_with, starts_with_exec, take_chars};

verus! {

/// Buffer capacity: once full, each new entry evicts the oldest one.
pub const MAX_ENTRIES: usize = 1000;

/// Longest message kept, in characters (longer ones are truncated).
pub const MAX_MESSAGE_CHARS: usize = 1000;

#[derive(Debug, Clone, Copy, PartialEq, Eq, Structural)]
pub enum LogLevel {
    Info,
    Warn,
    Error,
}

pub open spec fn level_of(s: Option<Seq<char>>) -> LogLevel {
    match s {
        Some(t) => if t == seq!['w', 'a', 'r', 'n'] {
            LogLevel::Warn
        } else if t == seq!['e', 'r', 'r', 'o', 'r'] {
            LogLevel::Error
        } else {
            LogLevel::Info
        },
        None => LogLevel::Info,
    }
}

impl LogLevel {
    /// Level argument of a skin's log call: "warn" and "error" are
    /// recognized, anything else is info.
    pub fn from_level_str(s: Option<&str>) -> (r: LogLevel)
        ensures
            r == level_of(
                match s {
                    Some(t) => Some(t@),
                    None => None,
                },
            ),
    {
        match s {
            None => LogLevel::Info,
            Some(t) => {
                let v = chars_of(t);
                let warn = vec!['w', 'a', 'r', 'n'];
                let error = vec!['e', 'r', 'r', 'o', 'r'];
                assert(warn@ =~= seq!['w', 'a', 'r', 'n']);
                assert(error@ =~= seq!['e', 'r', 'r', 'o', 'r']);
                if crate::text::chars_eq(&v, &warn) {
                    LogLevel::Warn
                } else if crate::text::chars_eq(&v, &error) {
                    LogLevel::Error
                } else {
                    LogLevel::Info
                }
            },
        }
    }
}

/// One log entry.
#[derive(Debug)]
pub struct LogEntry {
    /// Increasing sequence number (the log window merges by it).
    pub seq: u64,
    /// Unix epoch milliseconds.
    pub ts_ms: u64,
    pub level: LogLevel,
    /// "backend" or "skin:<id>".
    pub source: String,
    pub message: String,
}

/// Mathematical model of a log entry.
pub struct EntryModel {
    pub seq: u64,
    pub ts_ms: u64,
    pub level: LogLevel,
    pub source: Seq<char>,
    pub message: Seq<char>,
}

impl LogEntry {
    pub open spec fn model(&self) -> EntryModel {
        EntryModel {
            seq: self.seq,
            ts_ms: self.ts_ms,
            level: self.level,
            source: self.source@,
            message: self.message@,
        }
    }

    /// An independent copy of this entry.
    pub fn copy(&self) -> (r: LogEntry)
        ensures
            r.model() == self.model(),
    {
        LogEntry {
            seq: self.seq,
            ts_ms: self.ts_ms,
            level: self.level,
            source: self.source.clone(),
            message: self.message.clone(),
        }
    }
}

pub open spec fn entries_view(v: Seq<LogEntry>) -> Seq<EntryModel> {
    v.map_values(|e: LogEntry| e.model())
}

/// The log buffer: the kept entries, oldest first, and the next sequence
/// number.
pub struct LogBuffer {
    entries: Vec<LogEntry>,
    next_seq: u64,
}

/// The entries kept when one more arrives: all of them while there is
/// room, otherwise the newest `MAX_ENTRIES - 1`.
pub open spec fn keep_for_push(s: Seq<EntryModel>) -> Seq<EntryModel> {
    if s.len() >= MAX_ENTRIES {
        s.skip(s.len() - (MAX_ENTRIES - 1))
    } else {
        s
    }
}

/// A well-kept buffer: within capacity, sequence numbers strictly
/// increasing, all below the next number to hand out.
pub open spec fn wf_entries(s: Seq<EntryModel>, next: u64) -> bool {
    &&& s.len() <= MAX_ENTRIES
    &&& forall|i: int, j: int| 0 <= i < j < s.len() ==> s[i].seq < s[j].seq
    &&& forall|i: int| 0 <= i < s.len() ==> s[i].seq < next
}

impl LogBuffer {
    /// Every buffer is well kept (see [`wf_entries`]).
    #[verifier::type_invariant]
    spec fn well_kept(self) -> bool {
        wf_entries(entries_view(self.entries@), self.next_seq)
    }

    /// The kept entries, oldest first.
    pub closed spec fn items(&self) -> Seq<EntryModel> {
        entries_view(self.entries@)
    }

    /// The sequence number the next entry gets.
    pub closed spec fn next(&self) -> u64 {
        self.next_seq
    }

    /// An empty buffer.
    pub fn new() -> (r: LogBuffer)
        ensures
            r.items().len() == 0,
            r.next() == 0,
    {
        let r = LogBuffer { entries: Vec::new(), next_seq: 0 };
        assert(r.items() =~= Seq::<EntryModel>::empty());
        r
    }

    /// The sequence number the next entry gets.
    pub fn upcoming_seq(&self) -> (r: u64)
        ensures
            r == self.next(),
    {
        self.next_seq
    }
}

/// Appends an entry, evicting the oldest ones while the buffer is full and
/// truncating the message to `MAX_MESSAGE_CHARS` characters.  The new entry
/// is numbered above every kept one, and the buffer stays well kept.
pub fn push(buf: &mut LogBuffer, level: LogLevel, source: String, message: String, ts_ms: u64)
    requires
        old(buf).next() < u64::MAX,
    ensures
        final(buf).items() == keep_for_push(old(buf).items()).push(
            EntryModel {
                seq: old(buf).next(),
                ts_ms,
                level,
                source: source@,
                message: prefix(message@, MAX_MESSAGE_CHARS as nat),
            },
        ),
        final(buf).next() == old(buf).next() + 1,
        wf_entries(old(buf).items(), old(buf).next()),
        wf_entries(final(buf).items(), final(buf).next()),
{
    proof {
        use_type_invariant(&*buf);
    }
    let msg = take_chars(message.as_str(), MAX_MESSAGE_CHARS);
    let n0 = buf.next_seq;
    let entry = LogEntry { seq: n0, ts_ms, level, source, message: msg };
    let mut items: Vec<LogEntry> = Vec::new();
    std::mem::swap(&mut items, &mut buf.entries);
    let ghost start = entries_view(items@);
    if items.len() >= MAX_ENTRIES {
        let drop = items.len() - (MAX_ENTRIES - 1);
        let mut kept: Vec<LogEntry> = Vec::new();
        let mut i: usize = drop;
        while i < items.len()
            invariant
                drop <= i <= items@.len(),
                start == entries_view(items@),
                entries_view(kept@) == start.subrange(drop as int, i as int),
            decreases items.len() - i,
        {
            let e = items[i].copy();
            let ghost before = entries_view(kept@);
            let ghost em = e.model();
            assert(em == start[i as int]);
            kept.push(e);
            assert(entries_view(kept@) =~= before.push(em));
            i = i + 1;
            assert(entries_view(kept@) =~= start.subrange(drop as int, i as int));
        }
        assert(start.subrange(drop as int, start.len() as int) =~= start.skip(drop as int));
        items = kept;
    }
    let ghost kept_view = entries_view(items@);
    assert(kept_view == keep_for_push(start));
    let ghost em = entry.model();
    items.push(entry);
    assert(entries_view(items@) =~= kept_view.push(em));
    proof {
        law_buffer_bounded_and_ordered(start, n0, em);
    }
    buf.next_seq = n0 + 1;
    buf.entries = items;
}

/// A snapshot of the kept entries, oldest first: numbered in strictly
/// increasing order, all below the number the next entry gets.
pub fn entries(buf: &LogBuffer) -> (r: Vec<LogEntry>)
    ensures
        entries_view(r@) == buf.items(),
        wf_entries(entries_view(r@), buf.next()),
{
    proof {
        use_type_invariant(buf);
    }
    let mut out: Vec<LogEntry> = Vec::new();
    let mut i: usize = 0;
    while i < buf.entries.len()
        invariant
            i <= buf.entries@.len(),
            entries_view(out@) == entries_view(buf.entries@).take(i as int),
        decreases buf.entries.len() - i,
    {
        let e = buf.entries[i].copy();
        let ghost before = entries_view(out@);
        let ghost em = e.model();
        out.push(e);
        assert(entries_view(out@) =~= before.push(em));
        i = i + 1;
        assert(entries_view(out@) =~= entries_view(buf.entries@).take(i as int));
    }
    assert(entries_view(buf.entries@).take(buf.entries@.len() as int) =~= entries_view(buf.entries@));
    out
}

/// Drops every kept entry.  Sequence numbers keep counting: the next entry
/// is numbered above every entry handed out before.
pub fn clear(buf: &mut LogBuffer)
    ensures
        final(buf).items().len() == 0,
        final(buf).next() == old(buf).next(),
        forall|i: int|
            0 <= i < old(buf).items().len() ==> #[trigger] old(buf).items()[i].seq < final(buf).next(),
{
    proof {
        use_type_invariant(&*buf);
    }
    buf.entries = Vec::new();
    assert(entries_view(buf.entries@) =~= Seq::<EntryModel>::empty());
}

/// The buffer never holds more than `MAX_ENTRIES` entries, keeps the
/// newest ones, and hands out increasing sequence numbers: pushing onto a
/// buffer whose entries are within capacity and numbered below the next
/// number keeps all three properties (as long as the counter does not
/// wrap).
pub proof fn law_buffer_bounded_and_ordered(
    s: Seq<EntryModel>,
    next: u64,
    e: EntryModel,
)
    requires
        s.len() <= MAX_ENTRIES,
        forall|i: int, j: int| 0 <= i < j < s.len() ==> s[i].seq < s[j].seq,
        forall|i: int| 0 <= i < s.len() ==> s[i].seq < next,
        e.seq == next,
        next < u64::MAX,
    ensures
        keep_for_push(s).push(e).len() <= MAX_ENTRIES,
        keep_for_push(s).push(e).last() == e,
        forall|i: int, j: int|
            0 <= i < j < keep_for_push(s).push(e).len() ==> keep_for_push(s).push(e)[i].seq
                < keep_for_push(s).push(e)[j].seq,
        forall|i: int|
            0 <= i < keep_for_push(s).push(e).len() ==> keep_for_push(s).push(e)[i].seq < next + 1,
{
    let k = keep_for_push(s);
    assert forall|i: int| 0 <= i < k.len() implies #[trigger] k[i].seq < next by {
        if s.len() >= MAX_ENTRIES {
            assert(k[i] == s[i + (s.len() - (MAX_ENTRIES - 1))]);
        }
    }
    assert forall|i: int, j: int| 0 <= i < j < k.len() implies k[i].seq < k[j].seq by {
        if s.len() >= MAX_ENTRIES {
            assert(k[i] == s[i + (s.len() - (MAX_ENTRIES - 1))]);
            assert(k[j] == s[j + (s.len() - (MAX_ENTRIES - 1))]);
        }
    }
}

/// Severity of a backend log record (most severe first).
#[derive(Debug, Clone, Copy, PartialEq, Eq, Structural)]
pub enum RecordLevel {
    Error,
    Warn,
    Info,
    Debug,
    Trace,
}

/// Module prefix of this application's own log records.
pub open spec fn app_target_prefix() -> Seq<char> {
    seq!['d', 'r', 'i', 'f', 't', 'l', 'e', 't']
}

/// Backend records are accepted at info level and above, from this
/// application's own modules only.
pub open spec fn accepts(level: RecordLevel, target: Seq<char>) -> bool {
    level != RecordLevel::Debug && level != RecordLevel::Trace && starts_with(target, app_target_prefix())
}

/// Whether the logger takes a backend record at all.
pub fn accepts_record(level: RecordLevel, target: &str) -> (b: bool)
    ensures
        b == accepts(level, target@),
{
    if level == RecordLevel::Debug || level == RecordLevel::Trace {
        return false;
    }
    let t = chars_of(target);
    let p = vec!['d', 'r', 'i', 'f', 't', 'l', 'e', 't'];
    assert(p@ =~= app_target_prefix());
    starts_with_exec(&t, &p)
}

/// Only warnings and errors reach the log window's buffer.
pub fn buffered_level(level: RecordLevel) -> (r: Option<LogLevel>)
    ensures
        r == (match level {
            RecordLevel::Error => Some(LogLevel::Error),
            RecordLevel::Warn => Some(LogLevel::Warn),
            _ => None,
        }),
{
    match level {
        RecordLevel::Error => Some(LogLevel::Error),
        RecordLevel::Warn => Some(LogLevel::Warn),
        _ => None,
    }
}

} // verus!
